use vstd::prelude::*;
use vstd::string::*;
use crate::errors::{WxError, WxResult};
use crate::proto::MsgBytesExtra;
use crate::text::{push_char, spec_utf8_decode, str_ends_with, utf8_to_string};

verus! {

/// What a message row holds, judged from its type and subtype columns.
#[derive(Copy, Clone, Debug, PartialEq, Eq, Structural)]
pub enum MessageType {
    /// Plain text.
    Text,
    /// Text quoting another message; the content sits in the compressed
    /// column.
    TextReference,
    /// A picture.
    Image,
    /// A voice recording.
    Voice,
    /// A video.
    Video,
    /// A recommended video.
    VideoRecommend,
    /// A third-party sticker.
    Emoji,
    /// A user-uploaded animated sticker.
    EmojiGif,
    /// An attached file.
    File,
    /// A voice or video call.
    PhoneCall,
    /// A shared mini-program card.
    MiniProgram,
    /// A nudge.
    FriendPatPat,
    /// A contact recommendation.
    FriendRecommend,
    /// A group announcement.
    GroupNotice,
    /// A grey centred system notice.
    SystemNotice,
    /// An invitation notice.
    SystemInvite,
    /// A recalled message.
    Revoke,
    /// Anything this tool does not know.
    Unknown {
        /// The type column.
        type_id: i32,
        /// The subtype column.
        sub_id: i32,
    },
}

/// The message type a type/subtype column pair denotes.
pub open spec fn spec_message_type(type_id: i32, sub_id: i32) -> MessageType {
    if type_id == 1 && sub_id == 0 {
        MessageType::Text
    } else if type_id == 3 && sub_id == 0 {
        MessageType::Image
    } else if type_id == 34 && sub_id == 0 {
        MessageType::Voice
    } else if type_id == 43 && sub_id == 0 {
        MessageType::Video
    } else if type_id == 47 && sub_id == 0 {
        MessageType::Emoji
    } else if type_id == 49 && sub_id == 6 {
        MessageType::File
    } else if type_id == 49 && sub_id == 8 {
        MessageType::EmojiGif
    } else if type_id == 49 && (sub_id == 33 || sub_id == 36) {
        MessageType::MiniProgram
    } else if type_id == 49 && sub_id == 57 {
        MessageType::TextReference
    } else if type_id == 49 && (sub_id == 63 || sub_id == 88) {
        MessageType::VideoRecommend
    } else if type_id == 49 && sub_id == 87 {
        MessageType::GroupNotice
    } else if type_id == 50 && sub_id == 0 {
        MessageType::PhoneCall
    } else if type_id == 65 && sub_id == 0 {
        MessageType::FriendRecommend
    } else if type_id == 10000 && sub_id == 0 {
        MessageType::SystemNotice
    } else if type_id == 10000 && (sub_id == 1 || sub_id == 57) {
        MessageType::Revoke
    } else if type_id == 10000 && sub_id == 4 {
        MessageType::FriendPatPat
    } else if type_id == 10000 && sub_id == 8000 {
        MessageType::SystemInvite
    } else {
        MessageType::Unknown { type_id, sub_id }
    }
}

/// A sender row read back from the message database.
#[allow(non_snake_case)]
pub struct Sender {
    /// The sender's account identifier.
    pub SenderId: String,
}

/// Whether a character separates path segments: the message database stores
/// paths with either slash.
pub open spec fn spec_is_sep(c: char) -> bool {
    c == '/' || c == '\\'
}

/// The index of the last path separator, or -1 when there is none.
pub open spec fn spec_last_sep(s: Seq<char>) -> int
    decreases s.len(),
{
    if s.len() == 0 {
        -1
    } else if spec_is_sep(s.last()) {
        s.len() - 1
    } else {
        spec_last_sep(s.drop_last())
    }
}

/// The last path segment of a stored path.
pub open spec fn spec_path_file(s: Seq<char>) -> Seq<char> {
    s.skip(spec_last_sep(s) + 1)
}

/// The second-to-last path segment of a stored path.
pub open spec fn spec_path_dir(s: Seq<char>) -> Seq<char> {
    if spec_last_sep(s) < 0 {
        Seq::empty()
    } else {
        spec_path_file(s.take(spec_last_sep(s)))
    }
}

/// One row of the message table, as plain values.
pub struct MessageData {
    /// The row's sequence number.
    pub sequence: i64,
    /// The type column.
    pub type_code: i32,
    /// The subtype column.
    pub sub_type: i32,
    /// Seconds since the Unix epoch, in the server's clock.
    pub create_time: i64,
    /// The conversation (talker) identifier.
    pub room_id: String,
    /// The conversation's display name.
    pub room_name: String,
    /// The sender's account identifier.
    pub sender_id: String,
    /// The sender's display name, possibly empty.
    pub sender_name: String,
    /// 1 when this account sent the message.
    pub is_sender: i32,
    /// The plain text column.
    pub str_content: String,
    /// The LZ4-compressed content column.
    pub compress_content: Vec<u8>,
    /// The decoded auxiliary records.
    pub bytes_extra: MsgBytesExtra,
}

/// What LZ4 block decompression, bounded by an output limit, makes of some
/// bytes, and whether it accepts them; a function of bytes and limit alone.
pub uninterp spec fn spec_lz4_decompress(data: Seq<u8>, limit: int) -> Option<Seq<u8>>;

/// Relies on `lz4_flex::decompress` (block format, safe decoder): whether the
/// input decompresses within the limit, and to what, depends on the input and
/// the limit alone.
#[verifier::external_body]
fn lz4_decompress(data: &[u8], limit: usize) -> (r: Result<Vec<u8>, String>)
    ensures
        r is Ok <==> spec_lz4_decompress(data@, limit as int) is Some,
        r matches Ok(v) ==> v@ == spec_lz4_decompress(data@, limit as int).unwrap(),
{
    match lz4_flex::decompress(data, limit) {
        Ok(v) => Ok(v),
        Err(e) => Err(format!("{}", e)),
    }
}

/// The compressed column's text: the decompressed bytes, less the trailing
/// NUL, decoded as UTF-8.
pub open spec fn spec_compressed_text(data: Seq<u8>) -> Option<Seq<char>> {
    match spec_lz4_decompress(data, 0x10004) {
        Some(d) => {
            let cut = if d.len() == 0 {
                d
            } else {
                d.drop_last()
            };
            spec_utf8_decode(cut)
        },
        None => None,
    }
}

impl MessageData {
    /// A row built from its column values.
    pub fn new(
        sequence: i64,
        type_code: i32,
        sub_type: i32,
        create_time: i64,
        room_id: String,
        room_name: String,
        sender_id: String,
        sender_name: String,
        is_sender: i32,
        str_content: String,
        compress_content: Vec<u8>,
        bytes_extra: MsgBytesExtra,
    ) -> (r: MessageData)
        ensures
            r.sequence == sequence,
            r.type_code == type_code,
            r.sub_type == sub_type,
            r.create_time == create_time,
            r.room_id@ == room_id@,
            r.room_name@ == room_name@,
            r.sender_id@ == sender_id@,
            r.sender_name@ == sender_name@,
            r.is_sender == is_sender,
            r.str_content@ == str_content@,
            r.compress_content@ == compress_content@,
            r.bytes_extra == bytes_extra,
    {
        MessageData {
            sequence,
            type_code,
            sub_type,
            create_time,
            room_id,
            room_name,
            sender_id,
            sender_name,
            is_sender,
            str_content,
            compress_content,
            bytes_extra,
        }
    }

    /// What the row holds, judged from its type and subtype.
    pub fn get_type(&self) -> (r: MessageType)
        ensures
            r == spec_message_type(self.type_code, self.sub_type),
    {
        let t = self.type_code;
        let s = self.sub_type;
        if t == 1 && s == 0 {
            MessageType::Text
        } else if t == 3 && s == 0 {
            MessageType::Image
        } else if t == 34 && s == 0 {
            MessageType::Voice
        } else if t == 43 && s == 0 {
            MessageType::Video
        } else if t == 47 && s == 0 {
            MessageType::Emoji
        } else if t == 49 && s == 6 {
            MessageType::File
        } else if t == 49 && s == 8 {
            MessageType::EmojiGif
        } else if t == 49 && (s == 33 || s == 36) {
            MessageType::MiniProgram
        } else if t == 49 && s == 57 {
            MessageType::TextReference
        } else if t == 49 && (s == 63 || s == 88) {
            MessageType::VideoRecommend
        } else if t == 49 && s == 87 {
            MessageType::GroupNotice
        } else if t == 50 && s == 0 {
            MessageType::PhoneCall
        } else if t == 65 && s == 0 {
            MessageType::FriendRecommend
        } else if t == 10000 && s == 0 {
            MessageType::SystemNotice
        } else if t == 10000 && (s == 1 || s == 57) {
            MessageType::Revoke
        } else if t == 10000 && s == 4 {
            MessageType::FriendPatPat
        } else if t == 10000 && s == 8000 {
            MessageType::SystemInvite
        } else {
            MessageType::Unknown { type_id: t, sub_id: s }
        }
    }

    /// The row's sequence number.
    pub fn message_id(&self) -> (r: i64)
        ensures
            r == self.sequence,
    {
        self.sequence
    }

    /// The conversation identifier.
    pub fn room_id(&self) -> (r: &str)
        ensures
            r@ == self.room_id@,
    {
        self.room_id.as_str()
    }

    /// The conversation's display name.
    pub fn room_name(&self) -> (r: &str)
        ensures
            r@ == self.room_name@,
    {
        self.room_name.as_str()
    }

    /// The plain text column.
    pub fn text_message(&self) -> (r: &str)
        ensures
            r@ == self.str_content@,
    {
        self.str_content.as_str()
    }

    /// The sender's account identifier.
    pub fn sender_id(&self) -> (r: &str)
        ensures
            r@ == self.sender_id@,
    {
        self.sender_id.as_str()
    }

    /// Who sent the row, for display: the account itself, the stored name,
    /// or a placeholder for system notices, lost chatroom members and
    /// unnamed peers.
    pub fn sender_name(&self) -> (r: &str)
        ensures
            self.is_sender == 1 ==> r@ == "<自己>"@,
            self.is_sender != 1 && self.sender_name@.len() > 0 ==> r@ == self.sender_name@,
            self.is_sender != 1 && self.sender_name@.len() == 0 ==> r@ == (if spec_message_type(
                self.type_code,
                self.sub_type,
            ) == MessageType::SystemNotice {
                "<系统>"@
            } else if self.room_id@.len() >= "@chatroom"@.len() && self.room_id@.skip(
                self.room_id@.len() - "@chatroom"@.len(),
            ) == "@chatroom"@ {
                "<失联>"@
            } else {
                "<对方>"@
            }),
    {
        if self.is_sender() {
            return "<自己>";
        }
        if self.sender_name.as_str().unicode_len() == 0 {
            let is_notice = match self.get_type() {
                MessageType::SystemNotice => true,
                _ => false,
            };
            if is_notice {
                "<系统>"
            } else if str_ends_with(self.room_id.as_str(), "@chatroom") {
                "<失联>"
            } else {
                "<对方>"
            }
        } else {
            self.sender_name.as_str()
        }
    }

    /// The stored image path reduced to its last directory and file name,
    /// joined with a slash.  Both `/` and `\\` count as segment separators,
    /// on every platform: the client stores Windows paths with backslashes,
    /// and a mixed path is split at whichever separator comes last.
    pub fn image_path(&self) -> (r: String)
        ensures
            (exists|j: int|
                0 <= j < self.bytes_extra.string@.len() && (#[trigger] self.bytes_extra.string@[j]).kind
                    == 4) ==> exists|i: int|
                {
                    &&& 0 <= i < self.bytes_extra.string@.len()
                    &&& (#[trigger] self.bytes_extra.string@[i]).kind == 4
                    &&& forall|j: int|
                        0 <= j < i ==> (#[trigger] self.bytes_extra.string@[j]).kind != 4
                    &&& r@ == spec_path_dir(self.bytes_extra.string@[i].message@) + seq!['/']
                        + spec_path_file(self.bytes_extra.string@[i].message@)
                },
            !(exists|j: int|
                0 <= j < self.bytes_extra.string@.len() && (#[trigger] self.bytes_extra.string@[j]).kind
                    == 4) ==> r@ == seq!['/'],
    {
        let full = self.bytes_extra.get_image_path();
        let n = full.as_str().unicode_len();
        let mut last_found = false;
        let mut last: usize = 0;
        let mut prev_found = false;
        let mut prev: usize = 0;
        let mut i: usize = 0;
        proof {
            assert(full@.take(0) =~= Seq::<char>::empty());
        }
        while i < n
            invariant
                n == full@.len(),
                i <= n,
                !last_found ==> spec_last_sep(full@.take(i as int)) == -1 && !prev_found,
                last_found ==> last < i && spec_last_sep(full@.take(i as int)) == last,
                last_found && !prev_found ==> spec_last_sep(full@.take(last as int)) == -1,
                last_found && prev_found ==> prev < last && spec_last_sep(
                    full@.take(last as int),
                ) == prev,
            decreases n - i,
        {
            proof {
                assert(full@.take(i as int + 1).drop_last() =~= full@.take(i as int));
                assert(full@.take(i as int + 1).last() == full@[i as int]);
            }
            let c = full.as_str().get_char(i);
            if c == '/' || c == '\\' {
                prev_found = last_found;
                prev = last;
                last_found = true;
                last = i;
            }
            i = i + 1;
        }
        proof {
            assert(full@.take(n as int) =~= full@);
        }
        let file: &str = if last_found {
            full.as_str().substring_char(last + 1, n)
        } else {
            full.as_str()
        };
        let dir: &str = if !last_found {
            ""
        } else if prev_found {
            full.as_str().substring_char(prev + 1, last)
        } else {
            full.as_str().substring_char(0, last)
        };
        let mut out = String::new();
        out.append(dir);
        push_char(&mut out, '/');
        out.append(file);
        proof {
            reveal_strlit("");
            if !last_found {
                assert(full@.skip(spec_last_sep(full@) + 1) =~= full@);
            } else {
                if prev_found {
                    assert(full@.take(last as int).skip(prev as int + 1) =~= full@.subrange(
                        prev as int + 1,
                        last as int,
                    ));
                } else {
                    assert(full@.take(last as int).skip(0) =~= full@.subrange(0, last as int));
                }
            }
            assert(out@ =~= spec_path_dir(full@) + seq!['/'] + spec_path_file(full@));
            if !(exists|j: int|
                0 <= j < self.bytes_extra.string@.len() && (
                #[trigger] self.bytes_extra.string@[j]).kind == 4) {
                assert(full@.len() == 0);
                assert(out@ =~= seq!['/']);
            }
        }
        out
    }

    /// The text hidden in the compressed column: LZ4-decompressed, stripped
    /// of its trailing NUL, and decoded as UTF-8.  An empty column is empty
    /// text.
    pub fn compress_content(&self) -> (r: WxResult<String>)
        ensures
            self.compress_content@.len() == 0 ==> (r matches Ok(s) && s@ == Seq::<char>::empty()),
            self.compress_content@.len() > 0 ==> ((r is Ok <==> spec_compressed_text(
                self.compress_content@,
            ) is Some) && (r matches Ok(s) ==> s@ == spec_compressed_text(
                self.compress_content@,
            ).unwrap())),
    {
        if self.compress_content.len() == 0 {
            return Ok(String::new());
        }
        let mut decompressed = match lz4_decompress(self.compress_content.as_slice(), 0x10004) {
            Ok(v) => v,
            Err(m) => {
                return Err(WxError::decode(String::from_str("lz4"), m));
            },
        };
        // the stored text carries a trailing NUL; drop it
        let _tail = decompressed.pop();
        match utf8_to_string(decompressed) {
            Ok(s) => Ok(s),
            Err(m) => Err(WxError::decode(String::from_str("utf8"), m)),
        }
    }

    /// The compressed column's text in reference form.
    pub fn text_reference(&self) -> (r: WxResult<String>)
        ensures
            self.compress_content@.len() == 0 ==> (r matches Ok(s) && s@ == Seq::<char>::empty()),
            self.compress_content@.len() > 0 ==> ((r is Ok <==> spec_compressed_text(
                self.compress_content@,
            ) is Some) && (r matches Ok(s) ==> s@ == spec_compressed_text(
                self.compress_content@,
            ).unwrap())),
    {
        self.compress_content()
    }

    /// The row's timestamp shifted to UTC+8.
    pub fn unix_time(&self) -> (r: i64)
        requires
            self.create_time + 8 * 60 * 60 <= i64::MAX,
        ensures
            r == self.create_time + 8 * 60 * 60,
    {
        self.create_time + 8 * 60 * 60
    }

    /// Whether this account sent the row.
    pub fn is_sender(&self) -> (r: bool)
        ensures
            r == (self.is_sender == 1),
    {
        self.is_sender == 1
    }
}

} // verus!
