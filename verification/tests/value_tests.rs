use wx_dump::{
    string_to_u8_vec, to_hex, u8_to_string, wal_byte_order, CsvLine, DsvWriter, MessageData,
    MessageType, MsgBytesExtra, MsgExtraString, RunDecrypt, WalByteOrder, WeChatProfile,
    WxArguments, WxErrorKind, WxMerger, XorDecryptor,
};

#[test]
fn ready() {
    println!("it works!")
}

#[test]
fn main_ready() {
    println!("it works!")
}

#[test]
fn to_hex_exact() {
    assert_eq!(to_hex(&[0xab, 0x05]), "AB05");
    assert_eq!(to_hex(&[]), "");
    assert_eq!(to_hex(&[0x00, 0xff, 0x10]), "00FF10");
}

fn s(text: &str) -> String {
    text.to_string()
}

#[test]
fn string_to_u8_vec_hex() {
    assert_eq!(string_to_u8_vec(&s("0aFf"), &s("hex")).unwrap(), vec![0x0a, 0xff]);
    assert_eq!(string_to_u8_vec(&s("0aFf"), &s("HEX")).unwrap(), vec![0x0a, 0xff]);
    assert!(string_to_u8_vec(&s("abc"), &s("hex")).is_err());
    assert!(string_to_u8_vec(&s("zz"), &s("hex")).is_err());
}

#[test]
fn string_to_u8_vec_base64_and_text() {
    assert_eq!(string_to_u8_vec(&s("Zg"), &s("base64")).unwrap(), vec![0x66]);
    assert!(string_to_u8_vec(&s("!!!"), &s("base64")).is_err());
    assert_eq!(string_to_u8_vec(&s("abc"), &s("string")).unwrap(), b"abc".to_vec());
}

#[test]
fn string_to_u8_vec_integers() {
    assert_eq!(
        string_to_u8_vec(&s("256"), &s("u32be")).unwrap(),
        vec![0, 0, 1, 0]
    );
    assert_eq!(
        string_to_u8_vec(&s("256"), &s("u32le")).unwrap(),
        vec![0, 1, 0, 0]
    );
    assert_eq!(
        string_to_u8_vec(&s("65535"), &s("u16be")).unwrap(),
        vec![0xff, 0xff]
    );
    assert_eq!(
        string_to_u8_vec(&s("-2"), &s("i16le")).unwrap(),
        vec![0xfe, 0xff]
    );
    assert_eq!(
        string_to_u8_vec(&s("-1"), &s("i64be")).unwrap(),
        vec![0xff; 8]
    );
    assert_eq!(
        string_to_u8_vec(&s("+7"), &s("u64le")).unwrap(),
        vec![7, 0, 0, 0, 0, 0, 0, 0]
    );
    assert!(string_to_u8_vec(&s("65536"), &s("u16be")).is_err());
    assert!(string_to_u8_vec(&s("18446744073709551616"), &s("u64be")).is_err());
    assert!(string_to_u8_vec(&s(""), &s("u16be")).is_err());
    assert!(string_to_u8_vec(&s("-32769"), &s("i16be")).is_err());
    assert_eq!(
        string_to_u8_vec(&s("-32768"), &s("i16be")).unwrap(),
        vec![0x80, 0x00]
    );
}

#[test]
fn string_to_u8_vec_unknown_encoding() {
    let e = string_to_u8_vec(&s("abc"), &s("rot13")).unwrap_err();
    assert!(matches!(e.kind, WxErrorKind::Custom { .. }));
}

#[test]
fn u8_to_string_text_codecs() {
    assert_eq!(u8_to_string(&[0xab, 0x05], &s("hex")).unwrap(), "AB05");
    assert_eq!(u8_to_string(&[0x66], &s("base64")).unwrap(), "Zg");
    assert_eq!(u8_to_string(b"AB\x00CD", &s("string")).unwrap(), "AB");
    assert_eq!(u8_to_string(b"plain", &s("STRING")).unwrap(), "plain");
}

#[test]
fn u8_to_string_integers() {
    assert_eq!(u8_to_string(&[0, 0, 1, 0], &s("u32be")).unwrap(), "256");
    assert_eq!(u8_to_string(&[0, 1, 0, 0], &s("u32le")).unwrap(), "256");
    assert_eq!(u8_to_string(&[0xff, 0xff], &s("u16be")).unwrap(), "65535");
    assert_eq!(u8_to_string(&[0xfe, 0xff], &s("i16le")).unwrap(), "-2");
    assert_eq!(u8_to_string(&[0xff; 8], &s("i64be")).unwrap(), "-1");
    assert_eq!(
        u8_to_string(&[0, 0, 0, 0, 0, 0, 0, 9, 0xAA], &s("u64be")).unwrap(),
        "9"
    );
    assert!(u8_to_string(&[1, 2], &s("u32be")).is_err());
}

#[test]
fn run_decrypt_parses_the_key() {
    let key_hex: String = (0u8..32).map(|_| "ab").collect();
    let run = RunDecrypt { key: Some(key_hex), encode: s("hex"), check_hmac: false };
    let profile = run.run(arguments()).unwrap();
    assert_eq!(profile.aes256, [0xab; 32]);
}

#[test]
fn run_decrypt_takes_other_encodings() {
    // a 32-character text key taken verbatim
    let run = RunDecrypt {
        key: Some(s("0123456789abcdef0123456789abcdef")),
        encode: s("string"),
        check_hmac: false,
    };
    let profile = run.run(arguments()).unwrap();
    assert_eq!(&profile.aes256[..], b"0123456789abcdef0123456789abcdef");
}

#[test]
fn run_decrypt_rejects_short_keys() {
    let run = RunDecrypt { key: Some(s("abcd")), encode: s("hex"), check_hmac: false };
    assert!(run.run(arguments()).is_err());
    let none = RunDecrypt { key: None, encode: s("hex"), check_hmac: false };
    assert!(none.run(arguments()).is_err());
}

fn arguments() -> WxArguments {
    WxArguments {
        offset_map: None,
        wechat_path: None,
        decrypt_path: None,
        process_id: None,
        process_name: s("WeChat.exe"),
        module_name: s("WeChatWin.dll"),
    }
}

fn message_row(type_code: i32, sub_type: i32) -> MessageData {
    MessageData::new(
        42,
        type_code,
        sub_type,
        100,
        s("friend@chatroom"),
        s("The Room"),
        s("wxid_friend"),
        s("Friend"),
        0,
        s("hello"),
        Vec::new(),
        MsgBytesExtra::new(),
    )
}

#[test]
fn get_type_maps_known_pairs() {
    assert_eq!(message_row(1, 0).get_type(), MessageType::Text);
    assert_eq!(message_row(3, 0).get_type(), MessageType::Image);
    assert_eq!(message_row(49, 57).get_type(), MessageType::TextReference);
    assert_eq!(message_row(49, 36).get_type(), MessageType::MiniProgram);
    assert_eq!(message_row(10000, 0).get_type(), MessageType::SystemNotice);
    assert_eq!(message_row(10000, 57).get_type(), MessageType::Revoke);
    assert_eq!(
        message_row(5, 6).get_type(),
        MessageType::Unknown { type_id: 5, sub_id: 6 }
    );
}

#[test]
fn message_getters() {
    let row = message_row(1, 0);
    assert_eq!(row.message_id(), 42);
    assert_eq!(row.room_id(), "friend@chatroom");
    assert_eq!(row.room_name(), "The Room");
    assert_eq!(row.text_message(), "hello");
    assert_eq!(row.sender_id(), "wxid_friend");
    assert_eq!(row.unix_time(), 100 + 8 * 60 * 60);
    assert!(!row.is_sender());
}

fn named_row(sender_name: &str, is_sender: i32, type_code: i32, room_id: &str) -> MessageData {
    MessageData::new(
        1,
        type_code,
        0,
        0,
        s(room_id),
        s("room"),
        s("wxid"),
        s(sender_name),
        is_sender,
        s(""),
        Vec::new(),
        MsgBytesExtra::new(),
    )
}

#[test]
fn sender_name_placeholders() {
    assert_eq!(named_row("Friend", 0, 1, "x").sender_name(), "Friend");
    assert_eq!(named_row("Friend", 1, 1, "x").sender_name(), "<自己>");
    assert_eq!(named_row("", 0, 10000, "x").sender_name(), "<系统>");
    assert_eq!(named_row("", 0, 1, "group@chatroom").sender_name(), "<失联>");
    assert_eq!(named_row("", 0, 1, "wxid_peer").sender_name(), "<对方>");
}

fn extra(records: Vec<(i32, &str)>) -> MsgBytesExtra {
    MsgBytesExtra {
        string: records
            .into_iter()
            .map(|(kind, message)| MsgExtraString { kind, message: s(message) })
            .collect(),
    }
}

#[test]
fn pop_sender_takes_the_first_kind_one() {
    let mut b = extra(vec![(4, "path"), (1, "alice"), (1, "bob")]);
    assert_eq!(b.pop_sender(), Some(s("alice")));
    assert_eq!(b.string.len(), 2);
    assert_eq!(b.pop_sender(), Some(s("bob")));
    assert_eq!(b.pop_sender(), None);
    assert_eq!(b.string.len(), 1);
}

#[test]
fn pop_image_path_takes_the_first_kind_four() {
    let mut b = extra(vec![(1, "alice"), (4, "dir\\file.dat")]);
    assert_eq!(b.pop_image_path(), Some(s("dir\\file.dat")));
    assert_eq!(b.pop_image_path(), None);
}

#[test]
fn image_path_keeps_the_last_two_segments() {
    let row = MessageData::new(
        1,
        3,
        0,
        0,
        s("r"),
        s("r"),
        s("w"),
        s("w"),
        0,
        s(""),
        Vec::new(),
        extra(vec![(4, "wxid\\MsgAttach\\ab12\\Image\\2024-01\\pic.dat")]),
    );
    assert_eq!(row.image_path(), "2024-01/pic.dat");
    let unix_style = MessageData::new(
        1,
        3,
        0,
        0,
        s("r"),
        s("r"),
        s("w"),
        s("w"),
        0,
        s(""),
        Vec::new(),
        extra(vec![(4, "a/b/c.dat")]),
    );
    assert_eq!(unix_style.image_path(), "b/c.dat");
    let bare = MessageData::new(
        1,
        3,
        0,
        0,
        s("r"),
        s("r"),
        s("w"),
        s("w"),
        0,
        s(""),
        Vec::new(),
        extra(vec![]),
    );
    assert_eq!(bare.image_path(), "/");
}

#[test]
fn compress_content_round_trips_lz4() {
    let compressed = lz4_flex::compress(b"hello\x00");
    let row = MessageData::new(
        1,
        49,
        57,
        0,
        s("r"),
        s("r"),
        s("w"),
        s("w"),
        0,
        s(""),
        compressed,
        MsgBytesExtra::new(),
    );
    assert_eq!(row.compress_content().unwrap(), "hello");
    assert_eq!(row.text_reference().unwrap(), "hello");
    let empty = message_row(49, 57);
    assert_eq!(empty.compress_content().unwrap(), "");
}

#[test]
fn xor_decryptor_recovers_a_jpg() {
    let decoder = XorDecryptor::default();
    let original: Vec<u8> = vec![0xFF, 0xD8, 0xFF, 0xE0, 0x10, 0x4A];
    let secret = 0x5A;
    let obfuscated: Vec<u8> = original.iter().map(|b| b ^ secret).collect();
    let (ext, restored) = decoder.decrypt_bytes(&obfuscated);
    assert_eq!(ext, "jpg");
    assert_eq!(restored, original);
}

#[test]
fn xor_decryptor_gives_up_cleanly() {
    let decoder = XorDecryptor::default();
    assert_eq!(decoder.decrypt_bytes(&[0x01]), ("", vec![]));
    // the two leading bytes disagree about the XOR byte for every known magic
    let hopeless = [0x00u8, 0xFF, 0x10, 0x20];
    assert_eq!(decoder.decrypt_bytes(&hopeless), ("", vec![]));
}

#[test]
fn xor_decryptor_add_replaces() {
    let mut decoder = XorDecryptor::new(&[0x41, 0x42], "old");
    decoder.add(&[0x41, 0x42], "new");
    let input = [0x41u8, 0x42, 0x43];
    let (ext, restored) = decoder.decrypt_bytes(&input);
    assert_eq!(ext, "new");
    assert_eq!(restored, input.to_vec());
}

#[test]
fn csv_line_quotes_what_needs_it() {
    let mut line = CsvLine::new();
    assert!(!line.needs_quote("plain"));
    assert!(line.needs_quote("with space"));
    assert!(line.needs_quote("comma,inside"));
    assert!(line.needs_quote("quote\"inside"));
    line.push_str("plain");
    line.push_str("a\"b");
    let text = line.finish();
    assert_eq!(text, "plain,\"a\"\"b\",\n");
}

#[test]
fn csv_line_bom_and_display() {
    let mut line = CsvLine::new();
    line.push_utf8_bom();
    line.push_display(57i64);
    let text = line.finish();
    assert_eq!(text, "\u{feff}57,\n");
}

#[test]
fn dsv_writer_keeps_its_name() {
    let w = DsvWriter::new(s("out.csv"));
    assert_eq!(w.file_name, "out.csv");
}

#[test]
fn wal_byte_order_markers() {
    assert_eq!(wal_byte_order(0x82).unwrap(), WalByteOrder::LittleEndian);
    assert_eq!(wal_byte_order(0x83).unwrap(), WalByteOrder::BigEndian);
    assert!(wal_byte_order(0x80).is_err());
}

#[test]
fn small_value_types() {
    let merger = WxMerger::new(s("some/dir"));
    assert_eq!(merger.dir, "some/dir");
    let profile = WeChatProfile::default();
    assert_eq!(profile.aes256, [0u8; 32]);
    assert_eq!(profile.user_name, "");
    let row = wx_dump::db_message::MessageData::new(s("text"));
    assert_eq!(row.message, "text");
}
