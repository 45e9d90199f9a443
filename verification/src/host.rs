//! What the host does with each request: the decisions of its main loop.
//!
//! A request either is answered at once (a chunk is stored, or the action
//! is unknown), or needs the key listing, or needs a `gpg` job whose run
//! is then turned into replies.

use vstd::prelude::*;
use vstd::string::*;
use crate::chunks::{taken_text, with_chunk, ChunkStore};
use crate::frame::{frame_split, read_frame, ByteOrder};
use crate::gpg::{job_result, GpgJob, GpgRun};
use crate::json::{
    bool_member, json_bool_member, json_parses, json_text_member, json_u64_member, parses_as_json,
    text_member, u64_member,
};
use crate::reply::{field, replies_view, success_replies, text_field, JsonView, Reply};

verus! {

/// A request, with the fields the host reads; a field is absent when the
/// request does not have it with the expected JSON type.
pub struct Request {
    pub msg_id: Option<String>,
    pub action: Option<String>,
    pub index: Option<u64>,
    pub data: Option<String>,
    pub chunked: Option<bool>,
    pub text: Option<String>,
    pub email: Option<String>,
    pub public_key: Option<String>,
    pub fingerprint: Option<String>,
    pub algo: Option<String>,
    pub expire: Option<String>,
}

/// What to do next for a request.
pub enum Step {
    /// Send this reply.
    Answer(Reply),
    /// List the keys and answer message `msg_id`.
    ListKeys { msg_id: String },
    /// Run `job` and answer with what `finish_job` makes of the run.
    Run { action: String, msg_id: String, job: GpgJob },
}

/// A job as plain values.
pub enum JobView {
    Sign { challenge: Seq<char>, email: Seq<char> },
    Encrypt { recipient: Seq<char>, public_key: Seq<char>, plaintext: Seq<char> },
    Decrypt { ciphertext: Seq<char> },
    AddSubkey { target: Seq<char>, algo: Seq<char>, expire: Seq<char> },
}

/// A step as plain values.
pub enum StepView {
    Answer(Seq<(Seq<char>, JsonView)>),
    ListKeys(Seq<char>),
    Run(Seq<char>, Seq<char>, JobView),
}

impl View for GpgJob {
    type V = JobView;

    open spec fn view(&self) -> JobView {
        match self {
            GpgJob::Sign { challenge, email } => JobView::Sign {
                challenge: challenge@,
                email: email@,
            },
            GpgJob::Encrypt { recipient, public_key, plaintext } => JobView::Encrypt {
                recipient: recipient@,
                public_key: public_key@,
                plaintext: plaintext@,
            },
            GpgJob::Decrypt { ciphertext } => JobView::Decrypt { ciphertext: ciphertext@ },
            GpgJob::AddSubkey { target, algo, expire } => JobView::AddSubkey {
                target: target@,
                algo: algo@,
                expire: expire@,
            },
        }
    }
}

impl View for Step {
    type V = StepView;

    open spec fn view(&self) -> StepView {
        match self {
            Step::Answer(r) => StepView::Answer(r@),
            Step::ListKeys { msg_id } => StepView::ListKeys(msg_id@),
            Step::Run { action, msg_id, job } => StepView::Run(action@, msg_id@, job@),
        }
    }
}

/// A text field of a request, or `default` when it is absent.
pub open spec fn or_default(o: Option<String>, default: Seq<char>) -> Seq<char> {
    match o {
        Some(s) => s@,
        None => default,
    }
}

/// The message a request belongs to.
pub open spec fn request_msg_id(r: Request) -> Seq<char> {
    or_default(r.msg_id, "default_id"@)
}

/// The action a request asks for.
pub open spec fn request_action(r: Request) -> Seq<char> {
    or_default(r.action, ""@)
}

/// The position of a chunk (a `u64` cast to `usize`).
pub open spec fn request_index(r: Request) -> usize {
    match r.index {
        Some(i) => i as usize,
        None => 0,
    }
}

/// Whether the request's text was sent in chunks.
pub open spec fn request_chunked(r: Request) -> bool {
    match r.chunked {
        Some(b) => b,
        None => false,
    }
}

/// The store after the request: a chunk is stored; the final request of a
/// chunked message takes its pieces out; any other request leaves it.
pub open spec fn store_after(store: Map<Seq<char>, Map<usize, Seq<char>>>, r: Request) -> Map<
    Seq<char>,
    Map<usize, Seq<char>>,
> {
    if request_action(r) == "chunk"@ {
        with_chunk(store, request_msg_id(r), request_index(r), or_default(r.data, ""@))
    } else if request_chunked(r) {
        store.remove(request_msg_id(r))
    } else {
        store
    }
}

/// The text a request works on: its chunks joined, or its `text` field.
pub open spec fn request_text(store: Map<Seq<char>, Map<usize, Seq<char>>>, r: Request) -> Seq<
    char,
> {
    if request_chunked(r) {
        taken_text(store, request_msg_id(r))
    } else {
        or_default(r.text, ""@)
    }
}

/// The key a new subkey goes to: the fingerprint when one is given,
/// else the email.
pub open spec fn subkey_target(r: Request) -> Seq<char> {
    if or_default(r.fingerprint, ""@).len() > 0 {
        or_default(r.fingerprint, ""@)
    } else {
        or_default(r.email, ""@)
    }
}

/// A reply with the request's action and message, an error and the
/// status `error`.
pub open spec fn error_reply_view(action: Seq<char>, msg_id: Seq<char>, error: Seq<char>) -> Seq<
    (Seq<char>, JsonView),
> {
    seq![
        text_field("action"@, action),
        text_field("msg_id"@, msg_id),
        text_field("error"@, error),
        text_field("status"@, "error"@),
    ]
}

/// What to do for a request, given the pieces stored before it.
pub open spec fn step_for(store: Map<Seq<char>, Map<usize, Seq<char>>>, r: Request) -> StepView {
    let action = request_action(r);
    let id = request_msg_id(r);
    let text = request_text(store, r);
    if action == "chunk"@ {
        StepView::Answer(
            seq![text_field("status"@, "chunk_received"@), text_field("msg_id"@, id)],
        )
    } else if action == "list-keys"@ {
        StepView::ListKeys(id)
    } else if action == "sign"@ {
        StepView::Run(
            action,
            id,
            JobView::Sign { challenge: text, email: or_default(r.email, ""@) },
        )
    } else if action == "encrypt"@ {
        StepView::Run(
            action,
            id,
            JobView::Encrypt {
                recipient: or_default(r.email, ""@),
                public_key: or_default(r.public_key, ""@),
                plaintext: text,
            },
        )
    } else if action == "decrypt"@ {
        StepView::Run(action, id, JobView::Decrypt { ciphertext: text })
    } else if action == "add-subkey"@ {
        StepView::Run(
            action,
            id,
            JobView::AddSubkey {
                target: subkey_target(r),
                algo: or_default(r.algo, "rsa3072"@),
                expire: or_default(r.expire, "0"@),
            },
        )
    } else {
        StepView::Answer(error_reply_view(action, id, "Unknown action"@))
    }
}

/// The field that carries a job's result.
pub open spec fn result_field(job: GpgJob) -> Seq<char> {
    match job {
        GpgJob::Sign { .. } => "signature"@,
        GpgJob::Encrypt { .. } => "encrypted"@,
        GpgJob::Decrypt { .. } => "decrypted"@,
        GpgJob::AddSubkey { .. } => "message"@,
    }
}

/// The replies to a request whose job ran as `run`.
pub open spec fn job_replies(action: Seq<char>, msg_id: Seq<char>, job: GpgJob, run: GpgRun) -> Seq<
    Seq<(Seq<char>, JsonView)>,
> {
    match job_result(job, run) {
        Ok(payload) => success_replies(action, msg_id, result_field(job), payload),
        Err(e) => seq![error_reply_view(action, msg_id, e)],
    }
}

/// The view of an optional text.
pub open spec fn opt_text(o: Option<String>) -> Option<Seq<char>> {
    match o {
        Some(s) => Some(s@),
        None => None,
    }
}

/// `q` holds what the JSON document `bytes` has in each request field.
pub open spec fn request_of(bytes: Seq<u8>, q: Request) -> bool {
    &&& opt_text(q.msg_id) == json_text_member(bytes, "msg_id"@)
    &&& opt_text(q.action) == json_text_member(bytes, "action"@)
    &&& q.index == json_u64_member(bytes, "index"@)
    &&& opt_text(q.data) == json_text_member(bytes, "data"@)
    &&& q.chunked == json_bool_member(bytes, "chunked"@)
    &&& opt_text(q.text) == json_text_member(bytes, "text"@)
    &&& opt_text(q.email) == json_text_member(bytes, "email"@)
    &&& opt_text(q.public_key) == json_text_member(bytes, "public_key"@)
    &&& opt_text(q.fingerprint) == json_text_member(bytes, "fingerprint"@)
    &&& opt_text(q.algo) == json_text_member(bytes, "algo"@)
    &&& opt_text(q.expire) == json_text_member(bytes, "expire"@)
}

/// The string member `key` of the document `payload`.
fn text_field_of(payload: &[u8], key: &str) -> (r: Option<String>)
    ensures
        opt_text(r) == json_text_member(payload@, key@),
{
    text_member(payload, key)
}

/// The request that the JSON document `payload` holds; `None` when the
/// bytes are not JSON.
pub fn parse_request(payload: &[u8]) -> (r: Option<Request>)
    ensures
        r is Some <==> json_parses(payload@),
        r matches Some(q) ==> request_of(payload@, q),
{
    if !parses_as_json(payload) {
        return None;
    }
    Some(
        Request {
            msg_id: text_field_of(payload, "msg_id"),
            action: text_field_of(payload, "action"),
            index: u64_member(payload, "index"),
            data: text_field_of(payload, "data"),
            chunked: bool_member(payload, "chunked"),
            text: text_field_of(payload, "text"),
            email: text_field_of(payload, "email"),
            public_key: text_field_of(payload, "public_key"),
            fingerprint: text_field_of(payload, "fingerprint"),
            algo: text_field_of(payload, "algo"),
            expire: text_field_of(payload, "expire"),
        },
    )
}

/// Reads one request from the front of `buf`: `None` when the frame is cut
/// short or its payload is not JSON; else the request and the number of
/// bytes its frame took.
pub fn read_request(buf: &[u8], order: ByteOrder) -> (r: Option<(Request, usize)>)
    ensures
        match frame_split(buf@, order) {
            None => r is None,
            Some((p, used)) => (r is Some <==> json_parses(p)) && (r matches Some((q, u)) ==> (
            request_of(p, q) && u as nat == used)),
        },
{
    match read_frame(buf, order) {
        None => None,
        Some((payload, used)) => match parse_request(payload.as_slice()) {
            Some(q) => Some((q, used)),
            None => None,
        },
    }
}

/// A text field of a request, or `default`.
fn text_or(o: Option<String>, default: &str) -> (s: String)
    ensures
        s@ == or_default(o, default@),
{
    match o {
        Some(s) => s,
        None => default.to_owned(),
    }
}

/// Whether `s` reads `word`.
fn is_word(s: &String, word: &str) -> (b: bool)
    ensures
        b == (s@ == word@),
{
    *s == word.to_owned()
}

/// Decides what to do for request `req`, storing or taking out the pieces
/// of chunked messages.
pub fn handle_request(store: &mut ChunkStore, req: Request) -> (step: Step)
    ensures
        final(store)@ == store_after(old(store)@, req),
        step@ == step_for(old(store)@, req),
{
    let ghost r = req;
    let Request {
        msg_id,
        action,
        index,
        data,
        chunked,
        text,
        email,
        public_key,
        fingerprint,
        algo,
        expire,
    } = req;
    let msg_id = text_or(msg_id, "default_id");
    let action = text_or(action, "");
    if is_word(&action, "chunk") {
        let i: usize = match index {
            Some(i) => i as usize,
            None => 0,
        };
        let data = text_or(data, "");
        store.insert_chunk(msg_id.clone(), i, data);
        let reply = Reply {
            fields: vec![field("status", "chunk_received".to_owned()), field("msg_id", msg_id)],
        };
        proof {
            assert(reply@ =~= seq![
                text_field("status"@, "chunk_received"@),
                text_field("msg_id"@, request_msg_id(r)),
            ]);
        }
        return Step::Answer(reply);
    }
    let is_chunked = match chunked {
        Some(b) => b,
        None => false,
    };
    let final_text = if is_chunked {
        store.take_text(&msg_id)
    } else {
        text_or(text, "")
    };
    if is_word(&action, "list-keys") {
        Step::ListKeys { msg_id }
    } else if is_word(&action, "sign") {
        let email = text_or(email, "");
        Step::Run { action, msg_id, job: GpgJob::Sign { challenge: final_text, email } }
    } else if is_word(&action, "encrypt") {
        let recipient = text_or(email, "");
        let public_key = text_or(public_key, "");
        Step::Run {
            action,
            msg_id,
            job: GpgJob::Encrypt { recipient, public_key, plaintext: final_text },
        }
    } else if is_word(&action, "decrypt") {
        Step::Run { action, msg_id, job: GpgJob::Decrypt { ciphertext: final_text } }
    } else if is_word(&action, "add-subkey") {
        let fingerprint = text_or(fingerprint, "");
        let email = text_or(email, "");
        let algo = text_or(algo, "rsa3072");
        let expire = text_or(expire, "0");
        let target = if !fingerprint.as_str().is_empty() {
            fingerprint
        } else {
            email
        };
        Step::Run { action, msg_id, job: GpgJob::AddSubkey { target, algo, expire } }
    } else {
        let reply = Reply {
            fields: vec![
                field("action", action),
                field("msg_id", msg_id),
                field("error", "Unknown action".to_owned()),
                field("status", "error".to_owned()),
            ],
        };
        proof {
            assert(reply@ =~= error_reply_view(
                request_action(r),
                request_msg_id(r),
                "Unknown action"@,
            ));
        }
        Step::Answer(reply)
    }
}

/// The replies to a request whose job `job` ran as `run`: its result in
/// the job's result field (in chunks when large), or its error.
pub fn finish_job(action: &String, msg_id: &String, job: &GpgJob, run: GpgRun) -> (rs: Vec<Reply>)
    ensures
        replies_view(rs@) == job_replies(action@, msg_id@, *job, run),
{
    match job.result(run) {
        Ok(payload) => {
            let name = match job {
                GpgJob::Sign { .. } => "signature",
                GpgJob::Encrypt { .. } => "encrypted",
                GpgJob::Decrypt { .. } => "decrypted",
                GpgJob::AddSubkey { .. } => "message",
            };
            crate::reply::success_reply(action, msg_id, name, payload)
        },
        Err(e) => {
            let ghost ev = e@;
            let reply = Reply {
                fields: vec![
                    field("action", action.clone()),
                    field("msg_id", msg_id.clone()),
                    field("error", e),
                    field("status", "error".to_owned()),
                ],
            };
            assert(reply@ =~= error_reply_view(action@, msg_id@, ev));
            let rs = vec![reply];
            assert(replies_view(rs@) =~= job_replies(action@, msg_id@, *job, run));
            rs
        },
    }
}

/// A text member of a JSON document, or the empty text when it is absent.
pub open spec fn member_or_empty(bytes: Seq<u8>, key: Seq<char>) -> Seq<char> {
    match json_text_member(bytes, key) {
        Some(t) => t,
        None => ""@,
    }
}

/// A request is read field by field from the JSON members of the same
/// names, and an encryption request carries the document's `public_key`
/// and `email` members to the `gpg` job it leads to.
pub proof fn law_request_member_names(
    store: Map<Seq<char>, Map<usize, Seq<char>>>,
    bytes: Seq<u8>,
    q: Request,
)
    requires
        request_of(bytes, q),
    ensures
        json_text_member(bytes, "msg_id"@) == opt_text(q.msg_id),
        json_text_member(bytes, "action"@) == opt_text(q.action),
        json_u64_member(bytes, "index"@) == q.index,
        json_text_member(bytes, "data"@) == opt_text(q.data),
        json_bool_member(bytes, "chunked"@) == q.chunked,
        json_text_member(bytes, "text"@) == opt_text(q.text),
        json_text_member(bytes, "email"@) == opt_text(q.email),
        json_text_member(bytes, "public_key"@) == opt_text(q.public_key),
        json_text_member(bytes, "fingerprint"@) == opt_text(q.fingerprint),
        json_text_member(bytes, "algo"@) == opt_text(q.algo),
        json_text_member(bytes, "expire"@) == opt_text(q.expire),
        json_text_member(bytes, "action"@) == Some("encrypt"@) ==> {
            &&& step_for(store, q) is Run
            &&& step_for(store, q)->2 is Encrypt
            &&& step_for(store, q)->2->public_key == member_or_empty(bytes, "public_key"@)
            &&& step_for(store, q)->2->recipient == member_or_empty(bytes, "email"@)
        },
{
    reveal_strlit("encrypt");
    reveal_strlit("chunk");
    reveal_strlit("list-keys");
    reveal_strlit("sign");
    assert("encrypt"@[0] != "chunk"@[0]);
    assert("encrypt"@[0] != "list-keys"@[0]);
    assert("encrypt"@[0] != "sign"@[0]);
}

/// A new subkey goes to the request's fingerprint whenever one is given,
/// whatever the email; only without a fingerprint does it go to the
/// email. The algorithm defaults to `rsa3072` and the expiry to `0`.
pub proof fn law_subkey_target(store: Map<Seq<char>, Map<usize, Seq<char>>>, r: Request)
    requires
        request_action(r) == "add-subkey"@,
    ensures
        step_for(store, r) is Run,
        step_for(store, r)->2 is AddSubkey,
        r.fingerprint is Some && r.fingerprint->0@.len() > 0 ==> step_for(store, r)->2->target
            == r.fingerprint->0@,
        !(r.fingerprint is Some && r.fingerprint->0@.len() > 0) ==> step_for(store, r)->2->target
            == (if r.email is Some {
            r.email->0@
        } else {
            ""@
        }),
        r.algo is None ==> step_for(store, r)->2->algo == "rsa3072"@,
        r.expire is None ==> step_for(store, r)->2->expire == "0"@,
{
    reveal_strlit("add-subkey");
    reveal_strlit("chunk");
    reveal_strlit("list-keys");
    reveal_strlit("sign");
    reveal_strlit("encrypt");
    reveal_strlit("decrypt");
    reveal_strlit("");
    assert("add-subkey"@[0] != "chunk"@[0]);
    assert("add-subkey"@[0] != "list-keys"@[0]);
    assert("add-subkey"@[0] != "sign"@[0]);
    assert("add-subkey"@[0] != "encrypt"@[0]);
    assert("add-subkey"@[0] != "decrypt"@[0]);
}

/// Every reply to a job's run names the request it answers: each carries
/// the request's `msg_id`, and the last carries its action.
pub proof fn law_job_replies_name_request(
    action: Seq<char>,
    msg_id: Seq<char>,
    job: GpgJob,
    run: GpgRun,
)
    ensures
        job_replies(action, msg_id, job, run).len() >= 1,
        forall|i: int|
            0 <= i < job_replies(action, msg_id, job, run).len() ==> (#[trigger] job_replies(
                action,
                msg_id,
                job,
                run,
            )[i]).contains(text_field("msg_id"@, msg_id)),
        job_replies(action, msg_id, job, run).last().contains(text_field("action"@, action)),
{
    let rs = job_replies(action, msg_id, job, run);
    match job_result(job, run) {
        Ok(payload) => {
            crate::reply::law_replies_name_request(action, msg_id, result_field(job), payload);
        },
        Err(e) => {
            assert(rs[0][1] == text_field("msg_id"@, msg_id));
            assert(rs.last()[0] == text_field("action"@, action));
        },
    }
}

/// A chunk is acknowledged with the status `chunk_received` and the
/// request's message id; a request with an action the host does not know
/// is answered with that action, its message id, the error
/// `Unknown action` and the status `error`, and leaves the store alone.
pub proof fn law_immediate_answers(store: Map<Seq<char>, Map<usize, Seq<char>>>, r: Request)
    ensures
        request_action(r) == "chunk"@ ==> step_for(store, r) is Answer && step_for(store, r)->Answer_0.contains(
            text_field("status"@, "chunk_received"@),
        ) && step_for(store, r)->Answer_0.contains(text_field("msg_id"@, request_msg_id(r))),
        ({
            let a = request_action(r);
            a != "chunk"@ && a != "list-keys"@ && a != "sign"@ && a != "encrypt"@ && a != "decrypt"@
                && a != "add-subkey"@ ==> {
                &&& step_for(store, r) is Answer
                &&& step_for(store, r)->Answer_0.contains(text_field("action"@, a))
                &&& step_for(store, r)->Answer_0.contains(text_field("msg_id"@, request_msg_id(r)))
                &&& step_for(store, r)->Answer_0.contains(text_field("error"@, "Unknown action"@))
                &&& step_for(store, r)->Answer_0.contains(text_field("status"@, "error"@))
                &&& !request_chunked(r) ==> store_after(store, r) == store
            }
        }),
{
    let id = request_msg_id(r);
    let a = request_action(r);
    if a == "chunk"@ {
        assert(step_for(store, r)->Answer_0[0] == text_field("status"@, "chunk_received"@));
        assert(step_for(store, r)->Answer_0[1] == text_field("msg_id"@, id));
    } else if a != "list-keys"@ && a != "sign"@ && a != "encrypt"@ && a != "decrypt"@ && a
        != "add-subkey"@ {
        let rep = step_for(store, r)->Answer_0;
        assert(rep[0] == text_field("action"@, a));
        assert(rep[1] == text_field("msg_id"@, id));
        assert(rep[2] == text_field("error"@, "Unknown action"@));
        assert(rep[3] == text_field("status"@, "error"@));
    }
}

} // verus!
