use aegis_host::chunks::ChunkStore;
use aegis_host::gpg::{GpgJob, GpgRun};
use aegis_host::host::{finish_job, handle_request, Request, Step};
use aegis_host::listing::{keys_reply, listing_text, parse_key_listing};
use aegis_host::reply::{JsonValue, Reply};

fn request(action: &str, msg_id: &str) -> Request {
    Request {
        msg_id: Some(msg_id.to_string()),
        action: Some(action.to_string()),
        index: None,
        data: None,
        chunked: None,
        text: None,
        email: None,
        public_key: None,
        fingerprint: None,
        algo: None,
        expire: None,
    }
}

fn text_of(r: &Reply, name: &str) -> Option<String> {
    r.fields.iter().find(|(n, _)| n == name).and_then(|(_, v)| match v {
        JsonValue::Text(s) => Some(s.clone()),
        _ => None,
    })
}

fn value_of<'a>(r: &'a Reply, name: &str) -> Option<&'a JsonValue> {
    r.fields.iter().find(|(n, _)| n == name).map(|(_, v)| v)
}

/// Runs a key listing through the library the way the host does, with no
/// exported keys.
fn list_reply(stdout: &str, msg_id: &str) -> Reply {
    let run = GpgRun::Exited { success: true, stdout: stdout.as_bytes().to_vec(), stderr: vec![] };
    let text = listing_text(run).expect("listing succeeded");
    let keys = parse_key_listing(&text);
    let paired: Vec<_> = keys.into_iter().map(|k| (k, String::new())).collect();
    keys_reply(&msg_id.to_string(), &paired)
}

#[test]
fn test_unknown_action_returns_error() {
    let mut store = ChunkStore::new();
    let step = handle_request(&mut store, request("unknown_action_test", "req-123"));
    let response = match step {
        Step::Answer(r) => r,
        _ => panic!("expected an immediate answer"),
    };
    assert_eq!(text_of(&response, "action").as_deref(), Some("unknown_action_test"));
    assert_eq!(text_of(&response, "msg_id").as_deref(), Some("req-123"));
    assert_eq!(text_of(&response, "status").as_deref(), Some("error"));
    assert_eq!(text_of(&response, "error").as_deref(), Some("Unknown action"));
}

#[test]
fn test_list_keys_isolated_gpg() {
    let mut store = ChunkStore::new();
    let step = handle_request(&mut store, request("list-keys", "req-456"));
    let msg_id = match step {
        Step::ListKeys { msg_id } => msg_id,
        _ => panic!("expected a key listing"),
    };
    // An empty GnuPG home lists nothing.
    let response = list_reply("", &msg_id);
    assert_eq!(text_of(&response, "action").as_deref(), Some("list-keys"));
    assert_eq!(text_of(&response, "msg_id").as_deref(), Some("req-456"));
    assert_eq!(text_of(&response, "status").as_deref(), Some("success"));
    match value_of(&response, "emails") {
        Some(JsonValue::TextList(emails)) => {
            assert_eq!(emails.len(), 0, "Emails array should be empty in empty gpg dir")
        }
        _ => panic!("Emails field missing or not an array"),
    }
}

#[test]
fn test_chunk_reassembly() {
    let mut store = ChunkStore::new();
    let mut messages: Vec<Reply> = Vec::new();

    let mut chunk0 = request("chunk", "req-chunk");
    chunk0.index = Some(0);
    chunk0.data = Some("Hello ".to_string());
    let mut chunk1 = request("chunk", "req-chunk");
    chunk1.index = Some(1);
    chunk1.data = Some("World!".to_string());
    let mut final_action = request("sign", "req-chunk");
    final_action.email = Some("nonexistent@email.com".to_string());
    final_action.chunked = Some(true);

    for req in [chunk0, chunk1] {
        match handle_request(&mut store, req) {
            Step::Answer(r) => messages.push(r),
            _ => panic!("a chunk is answered at once"),
        }
    }
    match handle_request(&mut store, final_action) {
        Step::Run { action, msg_id, job } => {
            match &job {
                GpgJob::Sign { challenge, email } => {
                    assert_eq!(challenge, "Hello World!");
                    assert_eq!(email, "nonexistent@email.com");
                }
                _ => panic!("expected a signing job"),
            }
            // gpg fails: the key of nonexistent@email.com is not there.
            let run = GpgRun::Exited {
                success: false,
                stdout: vec![],
                stderr: b"gpg: skipped \"nonexistent@email.com\": No secret key\n".to_vec(),
            };
            messages.extend(finish_job(&action, &msg_id, &job, run));
        }
        _ => panic!("expected a gpg job"),
    }

    for (i, msg) in messages.iter().enumerate() {
        match i {
            0 | 1 => {
                assert_eq!(text_of(msg, "status").as_deref(), Some("chunk_received"));
                assert_eq!(text_of(msg, "msg_id").as_deref(), Some("req-chunk"));
            }
            2 => {
                assert_eq!(text_of(msg, "action").as_deref(), Some("sign"));
                assert_eq!(text_of(msg, "msg_id").as_deref(), Some("req-chunk"));
                assert_eq!(text_of(msg, "status").as_deref(), Some("error"));
            }
            _ => (),
        }
    }
    assert_eq!(messages.len(), 3);
}

#[test]
fn test_subkey_detection_and_generation() {
    // The listing of a sign-only primary key.
    let before = "sec:u:2048:1:1111222233334444:1700000000:::u:::scSC:::+:::23::0:\n\
                  fpr:::::::::AAAABBBBCCCCDDDDEEEEFFFF1111222233334444:\n\
                  grp:::::::::0123456789ABCDEF0123456789ABCDEF01234567:\n\
                  uid:u::::1700000000::HASH::Test User <test@aegistest.local>::::::::::0:\n";
    let response = list_reply(before, "list-1");
    assert_eq!(text_of(&response, "status").as_deref(), Some("success"));
    let keys = match value_of(&response, "keys") {
        Some(JsonValue::KeyList(k)) => k,
        _ => panic!("keys should be an array"),
    };
    assert_eq!(keys.len(), 1);
    assert_eq!(keys[0].email, "test@aegistest.local");
    assert_eq!(keys[0].has_encrypt, false, "Initial key should have no encryption subkey");
    let fingerprint = keys[0].fingerprint.clone();
    assert_eq!(fingerprint, "AAAABBBBCCCCDDDDEEEEFFFF1111222233334444");

    // Asking for an encryption subkey.
    let mut add = request("add-subkey", "add-1");
    add.fingerprint = Some(fingerprint.clone());
    add.algo = Some("rsa2048".to_string());
    add.expire = Some("0".to_string());
    let mut store = ChunkStore::new();
    match handle_request(&mut store, add) {
        Step::Run { action, msg_id, job } => {
            let args = job.args(&String::new());
            assert_eq!(
                args,
                vec!["--batch", "--no-tty", "--quick-add-key", fingerprint.as_str(), "rsa2048", "encrypt", "0"]
            );
            let run = GpgRun::Exited { success: true, stdout: vec![], stderr: vec![] };
            let replies = finish_job(&action, &msg_id, &job, run);
            assert_eq!(replies.len(), 1);
            assert_eq!(text_of(&replies[0], "status").as_deref(), Some("success"));
            assert_eq!(text_of(&replies[0], "message").as_deref(), Some("Subkey added successfully"));
        }
        _ => panic!("expected a gpg job"),
    }

    // The listing once the subkey exists.
    let after = "sec:u:2048:1:1111222233334444:1700000000:::u:::scESC:::+:::23::0:\n\
                 fpr:::::::::AAAABBBBCCCCDDDDEEEEFFFF1111222233334444:\n\
                 uid:u::::1700000000::HASH::Test User <test@aegistest.local>::::::::::0:\n\
                 ssb:u:2048:1:5555666677778888:1700000100::::::e:::+:::23:\n\
                 fpr:::::::::9999888877776666555544443333222211110000:\n";
    let response = list_reply(after, "list-2");
    assert_eq!(text_of(&response, "status").as_deref(), Some("success"));
    let keys2 = match value_of(&response, "keys") {
        Some(JsonValue::KeyList(k)) => k,
        _ => panic!("keys should be an array 2"),
    };
    assert_eq!(keys2.len(), 1);
    assert_eq!(keys2[0].has_encrypt, true, "Subkey should now be created and detected");
    assert_eq!(keys2[0].fingerprint, "AAAABBBBCCCCDDDDEEEEFFFF1111222233334444");
}
