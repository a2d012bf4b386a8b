//! Recovery of plaintext content from an encrypted, SQLCipher-style SQLite
//! database tree whose 256-bit page key is known.
//!
//! The heart of the crate is the page-level decryption engine in `decrypt`:
//! key derivation (PBKDF2-HMAC-SHA1), per-page authenticated decryption
//! (AES-256-CBC with an HMAC-SHA1 tag in the page's reserve region), and the
//! byte-order-aware rolling checksum chain of the write-ahead log in `wal`.
//! Around it stand the small value-level helpers the command-line tool uses:
//! hex / base64 / integer codecs, the XOR obfuscation decoder for cached
//! attachment files, message-row accessors, and a DSV encoder.
//!
//! All file and process I/O lives outside this crate; every function here
//! works on plain values and carries a contract.

mod cli;
mod dsv;
mod codec;
pub mod db_message;
mod export;
mod merger;
mod scanner;
mod text;
mod utils;
mod crypto;
mod decrypt;
mod decrypt_dat;
mod errors;
mod message;
mod proto;
mod wal;

pub use cli::{RunCopy, RunDecrypt, RunExport, RunInfo, RunRead, RunSearch};
pub use cli::{WxArguments, WxCommands, WxDump};
pub use decrypt::{
    check_hmac, decrypt_db_bytes, decrypt_page, decrypt_wal_bytes, sqlite_header, KeyMaterial,
    WxDecryptor,
};
pub use dsv::{CsvConfig, CsvLine, DsvFormat, DsvLine, DsvWriter};
pub use export::WxExport;
pub use merger::WxMerger;
pub use scanner::WeChatProfile;
pub use decrypt_dat::{MagicHead, XorDecryptor};
pub use errors::{WxError, WxErrorKind, WxResult};
pub use message::{MessageData, MessageType, Sender};
pub use proto::{MsgBytesExtra, MsgExtraString};
pub use utils::{string_to_u8_vec, to_hex, u8_to_string};
pub use wal::{get_check_sum, wal_byte_order, WalByteOrder};
