use aegis_host::chunks::ChunkStore;
use aegis_host::frame::{decode_header, encode_frame, encode_header, native_byte_order, order_of_one, read_frame, ByteOrder};
use aegis_host::gpg::{export_args, exported_key, gpg_command, list_keys_args, windows_gpg_candidates, GpgJob, GpgRun};
use aegis_host::host::{finish_job, handle_request, parse_request, read_request, Request, Step};
use aegis_host::install::{
    macos_install_actions, windows_install_actions, InstallAction,
    chrome_manifest, double_backslashes, extension_id, firefox_manifest, host_name, macos_manifest_path,
    manifest_file_name, registry_key, Browser,
};
use aegis_host::listing::{keys_reply, keys_failed_reply, listing_text, parse_key_listing};
use aegis_host::reply::{success_reply, JsonValue, Reply, CHUNK_SIZE};

fn request(action: &str, msg_id: &str) -> Request {
    Request {
        msg_id: Some(msg_id.to_string()),
        action: Some(action.to_string()),
        index: None,
        data: None,
        chunked: None,
        text: None,
        email: None,
        public_key: None,
        fingerprint: None,
        algo: None,
        expire: None,
    }
}

fn text_of(r: &Reply, name: &str) -> Option<String> {
    r.fields.iter().find(|(n, _)| n == name).and_then(|(_, v)| match v {
        JsonValue::Text(s) => Some(s.clone()),
        _ => None,
    })
}

fn number_of(r: &Reply, name: &str) -> Option<usize> {
    r.fields.iter().find(|(n, _)| n == name).and_then(|(_, v)| match v {
        JsonValue::Number(n) => Some(*n),
        _ => None,
    })
}

fn chunk(msg_id: &str, index: u64, data: &str) -> Request {
    let mut r = request("chunk", msg_id);
    r.index = Some(index);
    r.data = Some(data.to_string());
    r
}

fn final_text(store: &mut ChunkStore, msg_id: &str) -> String {
    let mut r = request("decrypt", msg_id);
    r.chunked = Some(true);
    match handle_request(store, r) {
        Step::Run { job: GpgJob::Decrypt { ciphertext }, .. } => ciphertext,
        _ => panic!("expected a decryption job"),
    }
}

#[test]
fn frame_header_values() {
    assert_eq!(decode_header([1, 0, 0, 0], ByteOrder::Little), 1);
    assert_eq!(decode_header([1, 0, 0, 0], ByteOrder::Big), 16777216);
    assert_eq!(decode_header([0x78, 0x56, 0x34, 0x12], ByteOrder::Little), 0x12345678);
    assert_eq!(encode_header(0x12345678, ByteOrder::Big), [0x12, 0x34, 0x56, 0x78]);
    assert_eq!(encode_header(0x12345678, ByteOrder::Little), [0x78, 0x56, 0x34, 0x12]);
}

#[test]
fn frame_roundtrip_with_trailing_bytes() {
    for order in [ByteOrder::Little, ByteOrder::Big] {
        let payload = br#"{"action":"list-keys","msg_id":"req-456"}"#.to_vec();
        let mut buf = encode_frame(&payload, order);
        assert_eq!(buf.len(), payload.len() + 4);
        buf.extend_from_slice(b"next");
        let (got, used) = read_frame(&buf, order).expect("a whole frame");
        assert_eq!(got, payload);
        assert_eq!(used, payload.len() + 4);
    }
}

#[test]
fn frame_cut_short_gives_nothing() {
    assert!(read_frame(&[5, 0, 0], ByteOrder::Little).is_none());
    assert!(read_frame(&[5, 0, 0, 0, b'a', b'b'], ByteOrder::Little).is_none());
    let (p, used) = read_frame(&[0, 0, 0, 0], ByteOrder::Little).unwrap();
    assert!(p.is_empty());
    assert_eq!(used, 4);
}

#[test]
fn order_of_encoded_one() {
    assert_eq!(order_of_one([1, 0, 0, 0]), ByteOrder::Little);
    assert_eq!(order_of_one([0, 0, 0, 1]), ByteOrder::Big);
}

#[test]
fn native_order_matches_machine() {
    let order = native_byte_order();
    let expected = if u32::from_ne_bytes([1, 0, 0, 0]) == 1 { ByteOrder::Little } else { ByteOrder::Big };
    assert_eq!(order, expected);
    let framed = encode_frame(b"xyz", order);
    assert_eq!(u32::from_ne_bytes([framed[0], framed[1], framed[2], framed[3]]), 3);
}

#[test]
fn chunks_arriving_out_of_order_are_joined_by_position() {
    let mut store = ChunkStore::new();
    for (i, d) in [(2u64, "c"), (0, "a"), (1, "b")] {
        match handle_request(&mut store, chunk("m", i, d)) {
            Step::Answer(r) => {
                assert_eq!(text_of(&r, "status").as_deref(), Some("chunk_received"));
                assert_eq!(text_of(&r, "msg_id").as_deref(), Some("m"));
            }
            _ => panic!("a chunk is answered at once"),
        }
    }
    assert_eq!(final_text(&mut store, "m"), "abc");
    // the pieces are gone once taken
    assert_eq!(final_text(&mut store, "m"), "");
}

#[test]
fn chunk_resent_replaces_the_earlier_one() {
    let mut store = ChunkStore::new();
    handle_request(&mut store, chunk("m", 0, "old"));
    handle_request(&mut store, chunk("m", 1, "!"));
    handle_request(&mut store, chunk("m", 0, "new"));
    assert_eq!(final_text(&mut store, "m"), "new!");
}

#[test]
fn missing_position_cuts_the_text_short() {
    // Two pieces stored, at 0 and 2: only positions 0 and 1 are read.
    let mut store = ChunkStore::new();
    handle_request(&mut store, chunk("m", 0, "first"));
    handle_request(&mut store, chunk("m", 2, "third"));
    assert_eq!(final_text(&mut store, "m"), "first");
}

#[test]
fn messages_keep_their_own_chunks() {
    let mut store = ChunkStore::new();
    handle_request(&mut store, chunk("a", 0, "A0"));
    handle_request(&mut store, chunk("b", 0, "B0"));
    handle_request(&mut store, chunk("a", 1, "A1"));
    assert_eq!(final_text(&mut store, "b"), "B0");
    assert_eq!(final_text(&mut store, "a"), "A0A1");
}

#[test]
fn chunk_defaults() {
    let mut store = ChunkStore::new();
    let mut r = request("chunk", "x");
    r.msg_id = None;
    r.data = Some("D".to_string());
    match handle_request(&mut store, r) {
        Step::Answer(reply) => assert_eq!(text_of(&reply, "msg_id").as_deref(), Some("default_id")),
        _ => panic!(),
    }
    assert_eq!(final_text(&mut store, "default_id"), "D");
}

#[test]
fn unchunked_request_uses_text_field() {
    let mut store = ChunkStore::new();
    let mut r = request("encrypt", "e1");
    r.text = Some("plain".to_string());
    r.email = Some("bob@example.org".to_string());
    match handle_request(&mut store, r) {
        Step::Run { action, msg_id, job } => {
            assert_eq!(action, "encrypt");
            assert_eq!(msg_id, "e1");
            assert_eq!(job.input().as_deref(), Some("plain"));
            assert!(job.key_file_contents().is_none());
            assert!(job.needs_lock());
            assert_eq!(
                job.args(&"unused".to_string()),
                vec!["--encrypt", "--armor", "--trust-model", "always", "--recipient", "bob@example.org"]
            );
        }
        _ => panic!(),
    }
}

#[test]
fn encrypt_with_public_key_uses_key_file() {
    let mut store = ChunkStore::new();
    let mut r = request("encrypt", "e2");
    r.text = Some("plain".to_string());
    r.public_key = Some("-----BEGIN PGP PUBLIC KEY BLOCK-----".to_string());
    match handle_request(&mut store, r) {
        Step::Run { job, .. } => {
            assert_eq!(job.key_file_contents().as_deref(), Some("-----BEGIN PGP PUBLIC KEY BLOCK-----"));
            assert_eq!(
                job.args(&"/tmp/k.pub".to_string()),
                vec!["--encrypt", "--armor", "--trust-model", "always", "--recipient-file", "/tmp/k.pub"]
            );
        }
        _ => panic!(),
    }
}

#[test]
fn add_subkey_defaults_and_target() {
    let mut store = ChunkStore::new();
    let mut r = request("add-subkey", "s1");
    r.email = Some("me@example.org".to_string());
    match handle_request(&mut store, r) {
        Step::Run { job, .. } => {
            assert!(job.needs_lock());
            assert!(job.input().is_none());
            assert_eq!(
                job.args(&String::new()),
                vec!["--batch", "--no-tty", "--quick-add-key", "me@example.org", "rsa3072", "encrypt", "0"]
            );
        }
        _ => panic!(),
    }
}

#[test]
fn sign_and_decrypt_arguments() {
    let sign = GpgJob::Sign { challenge: "c".to_string(), email: "a@b".to_string() };
    assert_eq!(sign.args(&String::new()), vec!["--clear-sign", "--local-user", "a@b"]);
    assert!(sign.needs_lock());
    let dec = GpgJob::Decrypt { ciphertext: "x".to_string() };
    assert_eq!(dec.args(&String::new()), vec!["--decrypt", "--trust-model", "always"]);
    assert!(dec.needs_lock());
    assert_eq!(list_keys_args(), vec!["--list-secret-keys", "--with-colons"]);
    assert_eq!(export_args(&"FPR".to_string()), vec!["--export", "--armor", "FPR"]);
}

#[test]
fn job_results() {
    let job = GpgJob::Decrypt { ciphertext: "x".to_string() };
    let ok = GpgRun::Exited { success: true, stdout: b"secret".to_vec(), stderr: b"noise".to_vec() };
    assert_eq!(job.result(ok), Ok("secret".to_string()));
    let bad = GpgRun::Exited { success: false, stdout: vec![], stderr: b"bad \xff data".to_vec() };
    assert_eq!(job.result(bad), Err("GPG Decrypt Error: bad \u{FFFD} data".to_string()));
    let not_run = GpgRun::NotRun("No such file or directory (os error 2)".to_string());
    assert_eq!(job.result(not_run), Err("No such file or directory (os error 2)".to_string()));
    let sign = GpgJob::Sign { challenge: String::new(), email: String::new() };
    let bad = GpgRun::Exited { success: false, stdout: vec![], stderr: b"e".to_vec() };
    assert_eq!(sign.result(bad), Err("GPG Sign Error: e".to_string()));
    let enc = GpgJob::Encrypt { recipient: String::new(), public_key: String::new(), plaintext: String::new() };
    let bad = GpgRun::Exited { success: false, stdout: vec![], stderr: vec![] };
    assert_eq!(enc.result(bad), Err("GPG Encrypt Error: ".to_string()));
    let add = GpgJob::AddSubkey { target: String::new(), algo: String::new(), expire: String::new() };
    let bad = GpgRun::Exited { success: false, stdout: vec![], stderr: b"x".to_vec() };
    assert_eq!(add.result(bad), Err("GPG Add Subkey Error: x".to_string()));
}

#[test]
fn exported_key_text() {
    assert_eq!(exported_key(GpgRun::Exited { success: true, stdout: b"KEY\xc3".to_vec(), stderr: vec![] }), "KEY\u{FFFD}");
    assert_eq!(exported_key(GpgRun::Exited { success: false, stdout: b"KEY".to_vec(), stderr: vec![] }), "");
    assert_eq!(exported_key(GpgRun::NotRun("e".to_string())), "");
}

#[test]
fn small_result_is_sent_in_one_reply() {
    let rs = success_reply(&"sign".to_string(), &"m1".to_string(), "signature", "SIG".to_string());
    assert_eq!(rs.len(), 1);
    let names: Vec<&str> = rs[0].fields.iter().map(|(n, _)| n.as_str()).collect();
    assert_eq!(names, vec!["action", "msg_id", "signature", "status"]);
    assert_eq!(text_of(&rs[0], "signature").as_deref(), Some("SIG"));
    assert_eq!(text_of(&rs[0], "status").as_deref(), Some("success"));
}

#[test]
fn large_result_is_sent_in_chunks() {
    assert_eq!(CHUNK_SIZE, 800 * 1024);
    let payload: String = "0123456789".repeat(200_000); // 2,000,000 bytes
    let rs = success_reply(&"decrypt".to_string(), &"m2".to_string(), "decrypted", payload.clone());
    // ceil(2_000_000 / 819_200) = 3 chunk replies, then the final reply
    assert_eq!(rs.len(), 4);
    let mut joined = String::new();
    for (i, r) in rs[..3].iter().enumerate() {
        assert_eq!(text_of(r, "action").as_deref(), Some("chunk_reply"));
        assert_eq!(text_of(r, "msg_id").as_deref(), Some("m2"));
        assert_eq!(number_of(r, "index"), Some(i));
        assert_eq!(number_of(r, "total"), Some(3));
        joined.push_str(&text_of(r, "data").unwrap());
    }
    assert_eq!(text_of(&rs[0], "data").unwrap().len(), CHUNK_SIZE);
    assert_eq!(text_of(&rs[2], "data").unwrap().len(), 2_000_000 - 2 * CHUNK_SIZE);
    assert_eq!(joined, payload);
    let last = &rs[3];
    assert_eq!(text_of(last, "action").as_deref(), Some("decrypt"));
    assert!(matches!(last.fields.iter().find(|(n, _)| n == "chunked_reply"), Some((_, JsonValue::Flag(true)))));
    assert_eq!(text_of(last, "status").as_deref(), Some("success"));
    assert!(text_of(last, "decrypted").is_none());
}

#[test]
fn chunks_are_cut_between_characters() {
    // 'é' is two bytes; after the leading 'x' a cut at exactly CHUNK_SIZE
    // bytes would fall inside one, so the first piece stops one byte short.
    let payload = format!("x{}", "é".repeat(CHUNK_SIZE / 2));
    let rs = success_reply(&"decrypt".to_string(), &"m".to_string(), "decrypted", payload.clone());
    assert_eq!(rs.len(), 3);
    let first = text_of(&rs[0], "data").unwrap();
    let second = text_of(&rs[1], "data").unwrap();
    assert_eq!(first.len(), CHUNK_SIZE - 1);
    assert_eq!(second, "é");
    assert_eq!(number_of(&rs[0], "total"), Some(2));
    assert_eq!(format!("{}{}", first, second), payload);
    // four-byte characters
    let payload = "𝄞".repeat(CHUNK_SIZE / 4 + 1);
    let rs = success_reply(&"decrypt".to_string(), &"m".to_string(), "decrypted", payload.clone());
    let joined: String = rs[..rs.len() - 1].iter().map(|r| text_of(r, "data").unwrap()).collect();
    assert_eq!(joined, payload);
    assert!(rs[..rs.len() - 1].iter().all(|r| text_of(r, "data").unwrap().len() <= CHUNK_SIZE));
}

#[test]
fn exact_multiple_of_chunk_size() {
    let payload = "a".repeat(CHUNK_SIZE);
    let rs = success_reply(&"sign".to_string(), &"m".to_string(), "signature", payload);
    assert_eq!(rs.len(), 2);
    assert_eq!(number_of(&rs[0], "total"), Some(1));
}

#[test]
fn failed_job_reply() {
    let job = GpgJob::Sign { challenge: "c".to_string(), email: "x".to_string() };
    let run = GpgRun::Exited { success: false, stdout: vec![], stderr: b"no key".to_vec() };
    let rs = finish_job(&"sign".to_string(), &"m".to_string(), &job, run);
    assert_eq!(rs.len(), 1);
    let names: Vec<&str> = rs[0].fields.iter().map(|(n, _)| n.as_str()).collect();
    assert_eq!(names, vec!["action", "msg_id", "error", "status"]);
    assert_eq!(text_of(&rs[0], "error").as_deref(), Some("GPG Sign Error: no key"));
}

#[test]
fn listing_with_several_keys() {
    let listing = "sec:u:4096:1:AAAA:1::::::scESC::::::23::0:\r\n\
                   fpr:::::::::FPR-A:\r\n\
                   uid:u::::::::Alice <alice@example.org>:\r\n\
                   uid:u::::::::Alice again <alice@example.org>:\r\n\
                   uid:u::::::::Alice Work <alice@work.example>:\r\n\
                   sec:u:4096:1:BBBB:1::::::scSC::::::23::0:\n\
                   fpr:::::::::FPR-B:\n\
                   fpr:::::::::NOT-THIS-ONE:\n\
                   uid:u::::::::Bob <bob@example.org>:\n\
                   uid:u::::::::no address here:\n\
                   uid:u::::::::Alice <alice@example.org>:\n\
                   sec:u:4096:1:CCCC:1::::::sc::::::23::0:\n\
                   ssb:u:4096:1:DDDD:1::::::E:::::23:";
    let keys = parse_key_listing(listing);
    assert_eq!(keys.len(), 3);
    assert_eq!(keys[0].fingerprint, "FPR-A");
    assert_eq!(keys[0].emails, vec!["alice@example.org", "alice@work.example"]);
    assert!(keys[0].has_encrypt);
    assert_eq!(keys[1].fingerprint, "FPR-B");
    assert_eq!(keys[1].emails, vec!["bob@example.org", "alice@example.org"]);
    assert!(!keys[1].has_encrypt);
    assert_eq!(keys[2].fingerprint, "");
    assert!(keys[2].emails.is_empty());
    assert!(keys[2].has_encrypt);

    let paired: Vec<_> = keys.into_iter().zip(["PK-A", "PK-B", "PK-C"]).map(|(k, p)| (k, p.to_string())).collect();
    let reply = keys_reply(&"req".to_string(), &paired);
    let names: Vec<&str> = reply.fields.iter().map(|(n, _)| n.as_str()).collect();
    assert_eq!(names, vec!["action", "status", "emails", "keys", "msg_id"]);
    match &reply.fields[2].1 {
        JsonValue::TextList(e) => assert_eq!(e, &vec!["alice@example.org", "alice@work.example", "bob@example.org"]),
        _ => panic!(),
    }
    match &reply.fields[3].1 {
        JsonValue::KeyList(k) => {
            assert_eq!(k.len(), 4);
            assert_eq!(k[2].email, "bob@example.org");
            assert_eq!(k[2].fingerprint, "FPR-B");
            assert_eq!(k[2].public_key, "PK-B");
            assert_eq!(k[3].email, "alice@example.org");
            assert_eq!(k[3].public_key, "PK-B");
        }
        _ => panic!(),
    }
}

#[test]
fn grp_record_keeps_the_fingerprint_slot_open() {
    let listing = "sec:u:1:1:A:1::::::s:\ngrp:::::::::KEYGRIP:\nfpr:::::::::AFTER-GRP:\n";
    let keys = parse_key_listing(listing);
    assert_eq!(keys[0].fingerprint, "AFTER-GRP");
    let listing = "sec:u:1:1:A:1::::::s:\nuid:u::::::::x <a@b>:\nfpr:::::::::TOO-LATE:\n";
    let keys = parse_key_listing(listing);
    assert_eq!(keys[0].fingerprint, "");
}

#[test]
fn records_before_any_key_are_ignored() {
    let listing = "uid:u::::::::x <a@b>:\nssb:u:1:1:A:1::::::e:\nfpr:::::::::F:\n";
    let keys = parse_key_listing(listing);
    assert!(keys.is_empty());
}

#[test]
fn user_id_with_brackets_reversed_gives_no_email() {
    let listing = "sec:u:1:1:A:1::::::s:\nfpr:::::::::F:\nuid:u::::1::H::Bob > Al <al@x.org>:\nuid:u::::::::Al <al@y.org>:\n";
    let keys = parse_key_listing(listing);
    assert_eq!(keys.len(), 1);
    assert_eq!(keys[0].fingerprint, "F");
    assert_eq!(keys[0].emails, vec!["al@y.org"]);
    let listing = "sec:u:1:1:A:1::::::s:\nuid:u::::::::x >a@b<:\n";
    let keys = parse_key_listing(listing);
    assert!(keys[0].emails.is_empty());
}

#[test]
fn listing_failure_reply() {
    assert!(listing_text(GpgRun::Exited { success: false, stdout: b"x".to_vec(), stderr: vec![] }).is_none());
    assert!(listing_text(GpgRun::NotRun("e".to_string())).is_none());
    let r = keys_failed_reply(&"m".to_string());
    assert_eq!(text_of(&r, "action").as_deref(), Some("list-keys"));
    assert_eq!(text_of(&r, "status").as_deref(), Some("error"));
    assert_eq!(text_of(&r, "error").as_deref(), Some("Failed to list keys"));
    assert_eq!(text_of(&r, "msg_id").as_deref(), Some("m"));
}

#[test]
fn manifests_and_locations() {
    assert_eq!(host_name(), "com.aegis.http.gpg");
    assert_eq!(extension_id(None), "lappbcambkogfmigiphapgjcglafcfnd");
    assert_eq!(extension_id(Some("abc".to_string())), "abc");
    assert_eq!(double_backslashes(r"C:\Program Files\host.exe"), r"C:\\Program Files\\host.exe");
    let m = chrome_manifest("com.aegis.http.gpg", "/opt/host", "EXT");
    assert_eq!(
        m,
        "{\n  \"name\": \"com.aegis.http.gpg\",\n  \"description\": \"Aegis Http Native Host Daemon\",\n  \"path\": \"/opt/host\",\n  \"type\": \"stdio\",\n  \"allowed_origins\": [\n    \"chrome-extension://EXT/\"\n  ]\n}"
    );
    let f = firefox_manifest("h", "/p");
    assert_eq!(
        f,
        "{\n  \"name\": \"h\",\n  \"description\": \"Aegis Http Native Host Daemon\",\n  \"path\": \"/p\",\n  \"type\": \"stdio\",\n  \"allowed_extensions\": [\n    \"aegis-http@aegishttp.com\"\n  ]\n}"
    );
    assert_eq!(registry_key(Browser::Edge, "h"), r"Software\Microsoft\Edge\NativeMessagingHosts\h");
    assert_eq!(registry_key(Browser::Chrome, "h"), r"Software\Google\Chrome\NativeMessagingHosts\h");
    assert_eq!(registry_key(Browser::Firefox, "h"), r"Software\Mozilla\NativeMessagingHosts\h");
    assert_eq!(manifest_file_name(Browser::Firefox, "h"), "h-firefox.json");
    assert_eq!(manifest_file_name(Browser::Chrome, "h"), "h.json");
    assert_eq!(
        macos_manifest_path(Browser::Edge, "/Users/me", "h"),
        "/Users/me/Library/Application Support/Microsoft Edge/NativeMessagingHosts/h.json"
    );
}

#[test]
fn gpg_command_choice() {
    let candidates = windows_gpg_candidates();
    assert_eq!(candidates.len(), 6);
    assert_eq!(candidates[0], r"C:\Program Files (x86)\GnuPG\bin\gpg.exe");
    assert_eq!(candidates[5], r"C:\Program Files\Gpg4win\gpg.exe");
    assert_eq!(gpg_command(&Vec::new()), "gpg");
    let found: Vec<(String, bool)> =
        candidates.iter().enumerate().map(|(i, p)| (p.clone(), i == 2 || i == 4)).collect();
    assert_eq!(gpg_command(&found), r"C:\Program Files (x86)\Gpg4win\bin\gpg.exe");
    let none: Vec<(String, bool)> = candidates.iter().map(|p| (p.clone(), false)).collect();
    assert_eq!(gpg_command(&none), "gpg");
}

#[test]
fn request_fields_are_read_from_json() {
    let json = br#"{"action":"chunk","msg_id":"m7","index":3,"data":"piece","chunked":true,"text":5,"email":"a@b","algo":null}"#;
    let q = parse_request(json).expect("valid JSON");
    assert_eq!(q.action.as_deref(), Some("chunk"));
    assert_eq!(q.msg_id.as_deref(), Some("m7"));
    assert_eq!(q.index, Some(3));
    assert_eq!(q.data.as_deref(), Some("piece"));
    assert_eq!(q.chunked, Some(true));
    assert_eq!(q.text, None); // a number, not a string
    assert_eq!(q.email.as_deref(), Some("a@b"));
    assert_eq!(q.algo, None);
    assert_eq!(q.expire, None);
    assert!(parse_request(b"{not json").is_none());
    // JSON that is not an object gives a request with no fields
    let q = parse_request(b"[1,2]").expect("valid JSON");
    assert!(q.action.is_none() && q.msg_id.is_none() && q.index.is_none());
    // a negative index is not a u64
    assert_eq!(parse_request(br#"{"index":-1}"#).unwrap().index, None);
}

#[test]
fn request_read_from_frame() {
    let order = ByteOrder::Little;
    let mut buf = encode_frame(br#"{"action":"list-keys","msg_id":"req-456"}"#, order);
    let first_len = buf.len();
    buf.extend(encode_frame(b"garbage", order));
    let (q, used) = read_request(&buf, order).expect("a request");
    assert_eq!(used, first_len);
    assert_eq!(q.action.as_deref(), Some("list-keys"));
    assert_eq!(q.msg_id.as_deref(), Some("req-456"));
    assert!(read_request(&buf[used..], order).is_none());
    assert!(read_request(&buf[..first_len - 1], order).is_none());
}

#[test]
fn valid_output_comes_back_unchanged() {
    let job = GpgJob::Decrypt { ciphertext: "x".to_string() };
    let ok = GpgRun::Exited { success: true, stdout: "CT é".as_bytes().to_vec(), stderr: vec![] };
    assert_eq!(job.result(ok), Ok("CT é".to_string()));
    assert_eq!(exported_key(GpgRun::Exited { success: true, stdout: b"CT".to_vec(), stderr: vec![] }), "CT");
    let t = listing_text(GpgRun::Exited { success: true, stdout: b"sec:u".to_vec(), stderr: vec![] });
    assert_eq!(t.as_deref(), Some("sec:u"));
}

fn apply(files: &mut std::collections::BTreeMap<String, String>, reg: &mut std::collections::BTreeMap<String, String>, acts: &[InstallAction]) {
    for a in acts {
        match a {
            InstallAction::WriteFile { path, contents } => {
                files.insert(path.clone(), contents.clone());
            }
            InstallAction::SetRegistry { key, value, .. } => {
                reg.insert(key.clone(), value.clone());
            }
        }
    }
}

#[test]
fn install_actions_and_repeating_them() {
    let acts = windows_install_actions("h", r"C:\Apps\host.exe", "EXT", r"C:\Apps\h.json", r"C:\Apps\h-firefox.json");
    assert_eq!(acts.len(), 5);
    match &acts[0] {
        InstallAction::WriteFile { path, contents } => {
            assert_eq!(path, r"C:\Apps\h.json");
            assert!(contents.contains(r#""path": "C:\\Apps\\host.exe""#));
            assert!(contents.contains("chrome-extension://EXT/"));
        }
        _ => panic!(),
    }
    match &acts[2] {
        InstallAction::SetRegistry { browser, key, value } => {
            assert_eq!(*browser, Browser::Edge);
            assert_eq!(key, r"Software\Microsoft\Edge\NativeMessagingHosts\h");
            assert_eq!(value, r"C:\Apps\h.json");
        }
        _ => panic!(),
    }
    let (mut files, mut reg) = (Default::default(), Default::default());
    apply(&mut files, &mut reg, &acts);
    let once = (files.clone(), reg.clone());
    apply(&mut files, &mut reg, &acts);
    assert_eq!((files, reg), once);

    let acts = macos_install_actions("h", "/Apps/host", "EXT", "/Users/me");
    assert_eq!(acts.len(), 3);
    match &acts[2] {
        InstallAction::WriteFile { path, contents } => {
            assert_eq!(path, "/Users/me/Library/Application Support/Mozilla/NativeMessagingHosts/h.json");
            assert!(contents.contains(r#""path": "/Apps/host""#));
        }
        _ => panic!(),
    }
}
