//! Codes of the chunk and sub-chunk identifiers: the big-endian value of their four bytes.

use vstd::prelude::*;

verus! {

/// `FORM`
pub const FORM: u32 = 0x464f524d;

/// `LXOB`
pub const LXOB: u32 = 0x4c584f42;

/// `LXPR`
pub const LXPR: u32 = 0x4c585052;

/// `LXPE`
pub const LXPE: u32 = 0x4c585045;

/// `LXPM`
pub const LXPM: u32 = 0x4c58504d;

/// `PRVW`
pub const PRVW: u32 = 0x50525657;

/// `DESC`
pub const DESC: u32 = 0x44455343;

/// `VRSN`
pub const VRSN: u32 = 0x5652534e;

/// `APPV`
pub const APPV: u32 = 0x41505056;

/// `ENCO`
pub const ENCO: u32 = 0x454e434f;

/// `IASS`
pub const IASS: u32 = 0x49415353;

/// `SUBS`
pub const SUBS: u32 = 0x53554253;

/// `XREF`
pub const XREF: u32 = 0x58524546;

/// `TAGS`
pub const TAGS: u32 = 0x54414753;

/// `CHNM`
pub const CHNM: u32 = 0x43484e4d;

/// `LAYR`
pub const LAYR: u32 = 0x4c415952;

/// `PNTS`
pub const PNTS: u32 = 0x504e5453;

/// `BBOX`
pub const BBOX: u32 = 0x42424f58;

/// `VMPA`
pub const VMPA: u32 = 0x564d5041;

/// `VMAP`
pub const VMAP: u32 = 0x564d4150;

/// `VMED`
pub const VMED: u32 = 0x564d4544;

/// `POLS`
pub const POLS: u32 = 0x504f4c53;

/// `VMAD`
pub const VMAD: u32 = 0x564d4144;

/// `PTAG`
pub const PTAG: u32 = 0x50544147;

/// `3GRP`
pub const GRP3: u32 = 0x33475250;

/// `3SRF`
pub const SRF3: u32 = 0x33535246;

/// `VRTS`
pub const VRTS: u32 = 0x56525453;

/// `TRIS`
pub const TRIS: u32 = 0x54524953;

/// `VVEC`
pub const VVEC: u32 = 0x56564543;

/// `TTGS`
pub const TTGS: u32 = 0x54544753;

/// `ITEM`
pub const ITEM: u32 = 0x4954454d;

/// `ENVL`
pub const ENVL: u32 = 0x454e564c;

/// `ACTN`
pub const ACTN: u32 = 0x4143544e;

/// `DATA`
pub const DATA: u32 = 0x44415441;

/// `AANI`
pub const AANI: u32 = 0x41414e49;

/// `FLAT`
pub const FLAT: u32 = 0x464c4154;

/// `IREF`
pub const IREF: u32 = 0x49524546;

/// `IDEL`
pub const IDEL: u32 = 0x4944454c;

/// `XMAN`
pub const XMAN: u32 = 0x584d414e;

/// `AAIT`
pub const AAIT: u32 = 0x41414954;

/// `AASE`
pub const AASE: u32 = 0x41415345;

/// `TANI`
pub const TANI: u32 = 0x54414e49;

/// `TANO`
pub const TANO: u32 = 0x54414e4f;

/// `PRE `
pub const PRE: u32 = 0x50524520;

/// `POST`
pub const POST: u32 = 0x504f5354;

/// `KEY `
pub const KEY: u32 = 0x4b455920;

/// `FLAG`
pub const FLAG: u32 = 0x464c4147;

/// `PRNT`
pub const PRNT: u32 = 0x50524e54;

/// `CHAN`
pub const CHAN: u32 = 0x4348414e;

/// `CHNN`
pub const CHNN: u32 = 0x43484e4e;

/// `GRAD`
pub const GRAD: u32 = 0x47524144;

/// `CHNS`
pub const CHNS: u32 = 0x43484e53;

/// `PAKG`
pub const PAKG: u32 = 0x50414b47;

/// `UCHN`
pub const UCHN: u32 = 0x5543484e;

/// `CLNK`
pub const CLNK: u32 = 0x434c4e4b;

/// `LINK`
pub const LINK: u32 = 0x4c494e4b;

/// `CHNL`
pub const CHNL: u32 = 0x43484e4c;

/// `CHNV`
pub const CHNV: u32 = 0x43484e56;

/// `BCHN`
pub const BCHN: u32 = 0x4243484e;

/// `ITAG`
pub const ITAG: u32 = 0x49544147;

/// `UNIQ`
pub const UNIQ: u32 = 0x554e4951;

/// `UIDX`
pub const UIDX: u32 = 0x55494458;

/// `VNAM`
pub const VNAM: u32 = 0x564e414d;

/// `HCRV`
pub const HCRV: u32 = 0x48435256;

/// `BCRV`
pub const BCRV: u32 = 0x42435256;

/// `BSPL`
pub const BSPL: u32 = 0x4253504c;

/// `LINE`
pub const LINE: u32 = 0x4c494e45;

/// `FACE`
pub const FACE: u32 = 0x46414345;

/// `UNKN`, the polygon kind before any polygon list was read
pub const UNKN: u32 = 0x554e4b4e;

} // verus!
