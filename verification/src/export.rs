use vstd::prelude::*;
use crate::decrypt_dat::XorDecryptor;

verus! {

/// What to export from a decrypted message tree, and how: the spreadsheet
/// run itself drives a database engine and a workbook writer and stands
/// outside this crate.
pub struct WxExport {
    /// The original client tree, where attachment files live.
    pub wx_in: String,
    /// The decrypted tree the databases are read from.
    pub wx_out: String,
    /// The decoder for cached attachment files.
    pub dat: XorDecryptor,
    /// Whether to write the conversation identifier column.
    pub room_id: bool,
    /// Whether to write the sender identifier column.
    pub sender_id: bool,
    /// Whether to decode and write the compressed content column.
    pub compress_content: bool,
    /// Whether to write the auxiliary records column.
    pub extra_content: bool,
}

} // verus!
