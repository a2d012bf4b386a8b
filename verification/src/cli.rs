use vstd::prelude::*;
use crate::errors::{WxError, WxResult};
use crate::scanner::{key_from_slice, WeChatProfile};
use crate::utils::{spec_decoded_bytes, string_to_u8_vec};

verus! {

/// Shows the signed-in account's profile.  Reading it out of the running
/// client is platform work that stands outside this crate.
#[derive(Clone, Debug)]
pub struct RunInfo {}

/// Decrypts the message databases with a key given on the command line.
#[derive(Clone, Debug)]
pub struct RunDecrypt {
    /// The key, as text.
    pub key: Option<String>,
    /// How the key text encodes bytes.
    pub encode: String,
    /// Whether to authenticate every page while decrypting.
    pub check_hmac: bool,
}

/// Exports decrypted message databases to a spreadsheet.
#[derive(Clone, Debug)]
pub struct RunExport {
    /// The directory of databases to export.
    pub path: Option<String>,
    /// Whether to write the conversation identifier column.
    pub room_id: bool,
    /// Whether to write the sender identifier column.
    pub sender_id: bool,
    /// Whether to decode the compressed content column.
    pub compress_content: bool,
    /// Whether to write the auxiliary records column.
    pub bytes_extra: bool,
}

/// Searches the client's memory for a value.
#[derive(Clone, Debug)]
pub struct RunSearch {
    /// What to search for, as text.
    pub pattern: String,
    /// How the text encodes bytes.
    pub encode: String,
    /// Whether to report absolute addresses.
    pub real_addr: bool,
    /// Whether to search every module.
    pub from_all_modules: bool,
    /// Whether to search all process data.
    pub from_all_data: bool,
    /// Whether to report addresses where nothing was found.
    pub show_no_found_info: bool,
    /// Whether to report read errors.
    pub show_error_info: bool,
}

/// Reads a range of the client's memory.
#[derive(Clone, Debug)]
pub struct RunRead {
    /// Where to read.
    pub index: usize,
    /// How many bytes to read.
    pub len: usize,
    /// How to render what was read.
    pub encode: Option<String>,
    /// Whether `index` is an absolute address.
    pub absolute_address: bool,
}

/// Copies the message databases of an account.
#[derive(Clone, Debug)]
pub struct RunCopy {
    /// The account whose databases to copy.
    pub account: Option<String>,
}

/// The common command-line arguments.
#[derive(Clone, Debug)]
pub struct WxArguments {
    /// The file naming per-version memory offsets.
    pub offset_map: Option<String>,
    /// The client's data directory.
    pub wechat_path: Option<String>,
    /// Where decrypted files are written.
    pub decrypt_path: Option<String>,
    /// The client's process id, if known.
    pub process_id: Option<u32>,
    /// The client's process name.
    pub process_name: String,
    /// The client's main module name.
    pub module_name: String,
}

/// The subcommands of the tool.
#[derive(Clone, Debug)]
pub enum WxCommands {
    /// Show the signed-in account's profile.
    Info(RunInfo),
    /// Decrypt the message databases.
    Decrypt(RunDecrypt),
    /// Export decrypted databases to a spreadsheet.
    Export(RunExport),
    /// Search the client's memory.
    Search(RunSearch),
    /// Read a range of the client's memory.
    Read(RunRead),
    /// Copy an account's databases.
    Copy(RunCopy),
}

/// The parsed command line: common arguments and an optional subcommand.
#[derive(Clone, Debug)]
pub struct WxDump {
    /// The common arguments.
    pub args: WxArguments,
    /// The subcommand, if one was given.
    pub cmds: Option<WxCommands>,
}

impl RunDecrypt {
    /// Resolves the key for decryption: the command-line key text decoded
    /// under the chosen encoding, cut to 32 bytes.  It succeeds exactly when
    /// the text decodes to at least 32 bytes.  Without a key on the command
    /// line the caller must read one out of the running client, which is
    /// platform work outside this crate.
    pub fn run(&self, _c: WxArguments) -> (r: WxResult<WeChatProfile>)
        ensures
            self.key is None ==> r is Err,
            r matches Ok(p) ==> p.aes256@.len() == 32,
            self.key matches Some(k) ==> ((r is Ok <==> (spec_decoded_bytes(
                k@,
                self.encode@,
            ) matches Some(v) && v.len() >= 32)) && (r matches Ok(p) ==> p.aes256@
                == spec_decoded_bytes(k@, self.encode@).unwrap().take(32))),
    {
        match &self.key {
            Some(key) => {
                let key_vec = string_to_u8_vec(key, &self.encode)?;
                if key_vec.len() < 32 {
                    Err(WxError::custom(String::from_str("the key must hold 32 bytes")))
                } else {
                    let mut profile = WeChatProfile::default();
                    profile.aes256 = key_from_slice(key_vec.as_slice());
                    Ok(profile)
                }
            },
            None => Err(WxError::custom(
                String::from_str("no key given; read one from the running client"),
            )),
        }
    }
}

impl RunInfo {
    /// Reading the profile out of the running client is platform work that
    /// stands outside this crate; here there is nothing to do.
    pub fn run(self, _c: WxArguments) -> (r: WxResult<()>)
        ensures
            r is Ok,
    {
        Ok(())
    }
}

impl RunSearch {
    /// Searching the client's memory is platform work that stands outside
    /// this crate; here there is nothing to do.
    pub fn run(self, _c: WxArguments) -> (r: WxResult<()>)
        ensures
            r is Ok,
    {
        Ok(())
    }
}

} // verus!
