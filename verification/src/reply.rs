//! Replies sent to the extension, and the splitting of large results into
//! chunk replies.

use vstd::prelude::*;
use crate::chunks::concat_all;
use crate::text::{chars_of, string_of};

verus! {

/// One entry of the key list that `list-keys` returns.
pub struct KeyInfo {
    pub email: String,
    pub fingerprint: String,
    pub has_encrypt: bool,
    pub public_key: String,
}

/// A value in a reply.
pub enum JsonValue {
    Text(String),
    Flag(bool),
    Number(usize),
    TextList(Vec<String>),
    KeyList(Vec<KeyInfo>),
}

/// A reply: a JSON object, given as its fields in order. The replies this
/// crate builds never name a field twice.
pub struct Reply {
    pub fields: Vec<(String, JsonValue)>,
}

/// A key entry as plain values.
pub struct KeyView {
    pub email: Seq<char>,
    pub fingerprint: Seq<char>,
    pub has_encrypt: bool,
    pub public_key: Seq<char>,
}

/// A reply value as plain values.
pub enum JsonView {
    Text(Seq<char>),
    Flag(bool),
    Number(nat),
    TextList(Seq<Seq<char>>),
    KeyList(Seq<KeyView>),
}

impl View for KeyInfo {
    type V = KeyView;

    open spec fn view(&self) -> KeyView {
        KeyView {
            email: self.email@,
            fingerprint: self.fingerprint@,
            has_encrypt: self.has_encrypt,
            public_key: self.public_key@,
        }
    }
}

impl View for JsonValue {
    type V = JsonView;

    open spec fn view(&self) -> JsonView {
        match self {
            JsonValue::Text(s) => JsonView::Text(s@),
            JsonValue::Flag(b) => JsonView::Flag(*b),
            JsonValue::Number(n) => JsonView::Number(*n as nat),
            JsonValue::TextList(v) => JsonView::TextList(v@.map_values(|s: String| s@)),
            JsonValue::KeyList(v) => JsonView::KeyList(v@.map_values(|k: KeyInfo| k@)),
        }
    }
}

impl View for Reply {
    type V = Seq<(Seq<char>, JsonView)>;

    open spec fn view(&self) -> Seq<(Seq<char>, JsonView)> {
        self.fields@.map_values(|f: (String, JsonValue)| (f.0@, f.1@))
    }
}

/// The views of a list of replies.
pub open spec fn replies_view(rs: Seq<Reply>) -> Seq<Seq<(Seq<char>, JsonView)>> {
    rs.map_values(|r: Reply| r@)
}

/// A text field.
pub open spec fn text_field(name: Seq<char>, value: Seq<char>) -> (Seq<char>, JsonView) {
    (name, JsonView::Text(value))
}

/// Results of at least this many bytes are sent in chunk replies.
pub const CHUNK_SIZE: usize = 819200;

/// The number of bytes that character `c` takes in UTF-8.
pub open spec fn char_width(c: char) -> nat {
    vstd::utf8::encode_scalar(c as u32).len()
}

/// Where a piece that starts at position `k` of `s`, having taken `used`
/// bytes so far, ends: it takes characters while they fit in
/// `CHUNK_SIZE` bytes.
pub open spec fn piece_end(s: Seq<char>, k: nat, used: nat) -> nat
    decreases s.len() - k,
{
    if k < s.len() && used + char_width(s[k as int]) <= CHUNK_SIZE {
        piece_end(s, k + 1, used + char_width(s[k as int]))
    } else {
        k
    }
}

/// A long result cut into pieces: each piece takes as many whole
/// characters as fit in `CHUNK_SIZE` bytes, so no character is split.
pub open spec fn chunk_pieces(s: Seq<char>) -> Seq<Seq<char>>
    decreases s.len(),
{
    if s.len() == 0 {
        Seq::empty()
    } else {
        let e = piece_end(s, 0, 0);
        proof {
            lemma_piece_end_grows(s);
        }
        seq![s.take(e as int)] + chunk_pieces(s.skip(e as int))
    }
}

/// The chunk reply that carries piece `i` of `total`.
pub open spec fn chunk_reply_view(msg_id: Seq<char>, i: nat, total: nat, data: Seq<char>) -> Seq<
    (Seq<char>, JsonView),
> {
    seq![
        text_field("action"@, "chunk_reply"@),
        text_field("msg_id"@, msg_id),
        ("index"@, JsonView::Number(i)),
        ("total"@, JsonView::Number(total)),
        text_field("data"@, data),
    ]
}

/// The replies that carry the first `k` of the pieces `pieces`.
pub open spec fn chunk_replies_view(msg_id: Seq<char>, pieces: Seq<Seq<char>>, k: nat) -> Seq<
    Seq<(Seq<char>, JsonView)>,
> {
    Seq::new(k, |i: int| chunk_reply_view(msg_id, i as nat, pieces.len(), pieces[i]))
}

/// What a successful request is answered: a result shorter than
/// `CHUNK_SIZE` bytes goes in field `field` of one reply; a longer one is
/// cut into pieces of whole characters, at most `CHUNK_SIZE` bytes each,
/// each sent in a chunk reply, followed by a reply that says the result
/// came in chunks.
pub open spec fn success_replies(
    action: Seq<char>,
    msg_id: Seq<char>,
    field: Seq<char>,
    payload: Seq<char>,
) -> Seq<Seq<(Seq<char>, JsonView)>> {
    let bytes = vstd::utf8::encode_utf8(payload);
    if bytes.len() < CHUNK_SIZE {
        seq![
            seq![
                text_field("action"@, action),
                text_field("msg_id"@, msg_id),
                text_field(field, payload),
                text_field("status"@, "success"@),
            ],
        ]
    } else {
        let pieces = chunk_pieces(payload);
        chunk_replies_view(msg_id, pieces, pieces.len()).push(
            seq![
                text_field("action"@, action),
                text_field("msg_id"@, msg_id),
                ("chunked_reply"@, JsonView::Flag(true)),
                text_field("status"@, "success"@),
            ],
        )
    }
}

pub proof fn lemma_char_width(c: char)
    ensures
        1 <= char_width(c) <= 4,
{
}

pub proof fn lemma_piece_end_bounds(s: Seq<char>, k: nat, used: nat)
    requires
        k <= s.len(),
    ensures
        k <= piece_end(s, k, used) <= s.len(),
    decreases s.len() - k,
{
    if k < s.len() && used + char_width(s[k as int]) <= CHUNK_SIZE {
        lemma_piece_end_bounds(s, k + 1, used + char_width(s[k as int]));
    }
}

pub proof fn lemma_piece_end_grows(s: Seq<char>)
    requires
        s.len() > 0,
    ensures
        0 < piece_end(s, 0, 0) <= s.len(),
{
    lemma_char_width(s[0]);
    lemma_piece_end_bounds(s, 1, char_width(s[0]));
}

proof fn lemma_concat_prepend(a: Seq<char>, rest: Seq<Seq<char>>)
    ensures
        concat_all(seq![a] + rest) == a + concat_all(rest),
    decreases rest.len(),
{
    if rest.len() == 0 {
        assert((seq![a] + rest).drop_last() =~= Seq::<Seq<char>>::empty());
        assert(concat_all(Seq::<Seq<char>>::empty()) == Seq::<char>::empty());
        assert(a + Seq::<char>::empty() =~= a);
        assert(Seq::<char>::empty() + a =~= a);
    } else {
        lemma_concat_prepend(a, rest.drop_last());
        assert((seq![a] + rest).drop_last() =~= seq![a] + rest.drop_last());
        assert((seq![a] + rest).last() == rest.last());
    }
}

/// The pieces of a long result, joined in order, give back the result.
pub proof fn law_pieces_rejoin(s: Seq<char>)
    ensures
        concat_all(chunk_pieces(s)) == s,
    decreases s.len(),
{
    if s.len() > 0 {
        lemma_piece_end_grows(s);
        let e = piece_end(s, 0, 0);
        law_pieces_rejoin(s.skip(e as int));
        lemma_concat_prepend(s.take(e as int), chunk_pieces(s.skip(e as int)));
        assert(s.take(e as int) + s.skip(e as int) =~= s);
    } else {
        assert(chunk_pieces(s) =~= Seq::<Seq<char>>::empty());
    }
}

proof fn lemma_encode_push(t: Seq<char>, c: char)
    ensures
        vstd::utf8::encode_utf8(t.push(c)).len() == vstd::utf8::encode_utf8(t).len() + char_width(c),
    decreases t.len(),
{
    if t.len() > 0 {
        lemma_encode_push(t.drop_first(), c);
        assert(t.push(c).drop_first() =~= t.drop_first().push(c));
        assert(t.push(c)[0] == t[0]);
        assert(vstd::utf8::encode_utf8(t.push(c)) == vstd::utf8::encode_scalar(t[0] as u32)
            + vstd::utf8::encode_utf8(t.drop_first().push(c)));
        assert(vstd::utf8::encode_utf8(t) == vstd::utf8::encode_scalar(t[0] as u32)
            + vstd::utf8::encode_utf8(t.drop_first()));
    } else {
        assert(t.push(c).drop_first() =~= Seq::<char>::empty());
        assert(t.push(c)[0] == c);
        assert(vstd::utf8::encode_utf8(t.push(c)) == vstd::utf8::encode_scalar(c as u32)
            + vstd::utf8::encode_utf8(Seq::<char>::empty()));
        assert(vstd::utf8::encode_utf8(t) == Seq::<u8>::empty());
    }
}

proof fn lemma_piece_end_fits(s: Seq<char>, k: nat, used: nat)
    requires
        k <= s.len(),
        used == vstd::utf8::encode_utf8(s.take(k as int)).len(),
        used <= CHUNK_SIZE,
    ensures
        vstd::utf8::encode_utf8(s.take(piece_end(s, k, used) as int)).len() <= CHUNK_SIZE,
    decreases s.len() - k,
{
    if k < s.len() && used + char_width(s[k as int]) <= CHUNK_SIZE {
        lemma_encode_push(s.take(k as int), s[k as int]);
        assert(s.take(k as int).push(s[k as int]) =~= s.take(k as int + 1));
        lemma_piece_end_fits(s, k + 1, used + char_width(s[k as int]));
    }
}

/// Every piece of a long result takes at most `CHUNK_SIZE` bytes.
pub proof fn law_pieces_fit(s: Seq<char>)
    ensures
        forall|i: int|
            0 <= i < chunk_pieces(s).len() ==> vstd::utf8::encode_utf8(#[trigger] chunk_pieces(s)[i]).len()
                <= CHUNK_SIZE,
    decreases s.len(),
{
    if s.len() > 0 {
        lemma_piece_end_grows(s);
        let e = piece_end(s, 0, 0);
        law_pieces_fit(s.skip(e as int));
        assert(s.take(0) =~= Seq::<char>::empty());
        lemma_piece_end_fits(s, 0, 0);
        let ps = chunk_pieces(s);
        let rest = chunk_pieces(s.skip(e as int));
        assert forall|i: int| 0 <= i < ps.len() implies vstd::utf8::encode_utf8(
            #[trigger] ps[i],
        ).len() <= CHUNK_SIZE by {
            if i > 0 {
                assert(ps[i] == rest[i - 1]);
            }
        }
    }
}

/// A text field from a name and a value.
pub(crate) fn field(name: &str, value: String) -> (f: (String, JsonValue))
    ensures
        f.0@ == name@,
        f.1@ == JsonView::Text(value@),
{
    (name.to_owned(), JsonValue::Text(value))
}

/// The chunk reply for piece `i` of `total`.
fn chunk_reply(msg_id: &String, i: usize, total: usize, data: String) -> (r: Reply)
    ensures
        r@ == chunk_reply_view(msg_id@, i as nat, total as nat, data@),
{
    let fields = vec![
        field("action", "chunk_reply".to_owned()),
        field("msg_id", msg_id.clone()),
        ("index".to_owned(), JsonValue::Number(i)),
        ("total".to_owned(), JsonValue::Number(total)),
        field("data", data),
    ];
    let r = Reply { fields };
    assert(r@ =~= chunk_reply_view(msg_id@, i as nat, total as nat, data@));
    r
}

/// The number of bytes that `c` takes in UTF-8.
fn width_of(c: char) -> (w: usize)
    ensures
        w == char_width(c),
{
    proof {
        vstd::utf8::char_is_scalar(c);
    }
    let v = c as u32;
    if v <= 0x7F {
        1
    } else if v <= 0x7FF {
        2
    } else if v <= 0xFFFF {
        3
    } else {
        4
    }
}

/// The text `chars` cut into pieces of whole characters, at most
/// `CHUNK_SIZE` bytes each.
fn split_pieces(chars: &Vec<char>) -> (pieces: Vec<String>)
    ensures
        crate::text::texts(pieces@) == chunk_pieces(chars@),
{
    let n = chars.len();
    let mut pieces: Vec<String> = Vec::new();
    let mut start: usize = 0;
    assert(chars@.skip(0) =~= chars@);
    while start < n
        invariant
            n == chars@.len(),
            start <= n,
            crate::text::texts(pieces@) + chunk_pieces(chars@.skip(start as int)) == chunk_pieces(
                chars@,
            ),
        decreases n - start,
    {
        let ghost u = chars@.skip(start as int);
        let mut e = start;
        let mut used: usize = 0;
        while e < n && used + width_of(chars[e]) <= CHUNK_SIZE
            invariant
                n == chars@.len(),
                start <= e <= n,
                used <= CHUNK_SIZE,
                u == chars@.skip(start as int),
                piece_end(u, (e - start) as nat, used as nat) == piece_end(u, 0, 0),
            decreases n - e,
        {
            assert(u[e - start] == chars@[e as int]);
            used = used + width_of(chars[e]);
            e = e + 1;
        }
        proof {
            if e < n {
                assert(u[e - start] == chars@[e as int]);
            }
            lemma_piece_end_grows(u);
            assert(piece_end(u, 0, 0) == e - start);
            assert(chunk_pieces(u) == seq![u.take(e - start)] + chunk_pieces(u.skip(e - start)));
            assert(u.take(e - start) =~= chars@.subrange(start as int, e as int));
            assert(u.skip(e - start) =~= chars@.skip(e as int));
        }
        let piece = string_of(chars, start, e);
        let ghost before = crate::text::texts(pieces@);
        pieces.push(piece);
        assert(crate::text::texts(pieces@) =~= before.push(piece@));
        assert(before.push(piece@) + chunk_pieces(chars@.skip(e as int)) =~= before + (seq![piece@]
            + chunk_pieces(chars@.skip(e as int))));
        start = e;
    }
    assert(chars@.skip(start as int) =~= Seq::<char>::empty());
    assert(crate::text::texts(pieces@) + Seq::<Seq<char>>::empty() =~= crate::text::texts(
        pieces@,
    ));
    pieces
}

/// The replies to a request that succeeded with result `payload`, to be
/// put in field `field`.
pub fn success_reply(action: &String, msg_id: &String, field_name: &str, payload: String) -> (rs:
    Vec<Reply>)
    ensures
        replies_view(rs@) == success_replies(action@, msg_id@, field_name@, payload@),
        vstd::utf8::encode_utf8(payload@).len() >= CHUNK_SIZE ==> {
            &&& concat_all(chunk_pieces(payload@)) == payload@
            &&& forall|i: int|
                0 <= i < chunk_pieces(payload@).len() ==> vstd::utf8::encode_utf8(
                    #[trigger] chunk_pieces(payload@)[i],
                ).len() <= CHUNK_SIZE
        },
{
    proof {
        law_pieces_rejoin(payload@);
        law_pieces_fit(payload@);
    }
    let len = payload.as_str().as_bytes().len();
    if len < CHUNK_SIZE {
        let fields = vec![
            field("action", action.clone()),
            field("msg_id", msg_id.clone()),
            field(field_name, payload),
            field("status", "success".to_owned()),
        ];
        let r = Reply { fields };
        assert(r@ =~= seq![
            text_field("action"@, action@),
            text_field("msg_id"@, msg_id@),
            text_field(field_name@, payload@),
            text_field("status"@, "success"@),
        ]);
        let rs = vec![r];
        assert(replies_view(rs@) =~= success_replies(action@, msg_id@, field_name@, payload@));
        return rs;
    }
    let chars = chars_of(payload.as_str());
    let pieces = split_pieces(&chars);
    let ghost ps = chunk_pieces(payload@);
    let total = pieces.len();
    let mut rs: Vec<Reply> = Vec::new();
    let mut i: usize = 0;
    while i < total
        invariant
            total == pieces@.len(),
            crate::text::texts(pieces@) == ps,
            i <= total,
            replies_view(rs@) == chunk_replies_view(msg_id@, ps, i as nat),
        decreases total - i,
    {
        let data = pieces[i].clone();
        assert(data@ == ps[i as int]);
        let ghost before = replies_view(rs@);
        let r = chunk_reply(msg_id, i, total, data);
        rs.push(r);
        assert(replies_view(rs@) =~= before.push(r@));
        assert(replies_view(rs@) =~= chunk_replies_view(msg_id@, ps, (i + 1) as nat));
        i = i + 1;
    }
    let last = Reply {
        fields: vec![
            field("action", action.clone()),
            field("msg_id", msg_id.clone()),
            ("chunked_reply".to_owned(), JsonValue::Flag(true)),
            field("status", "success".to_owned()),
        ],
    };
    assert(last@ =~= seq![
        text_field("action"@, action@),
        text_field("msg_id"@, msg_id@),
        ("chunked_reply"@, JsonView::Flag(true)),
        text_field("status"@, "success"@),
    ]);
    let ghost before = replies_view(rs@);
    rs.push(last);
    assert(replies_view(rs@) =~= before.push(last@));
    assert(replies_view(rs@) =~= success_replies(action@, msg_id@, field_name@, payload@));
    rs
}

/// Every reply to a successful request names the request it answers:
/// each carries the request's `msg_id`, and the last one carries its
/// action and the status `success`.
pub proof fn law_replies_name_request(
    action: Seq<char>,
    msg_id: Seq<char>,
    field: Seq<char>,
    payload: Seq<char>,
)
    ensures
        success_replies(action, msg_id, field, payload).len() >= 1,
        forall|i: int|
            0 <= i < success_replies(action, msg_id, field, payload).len() ==> (
            #[trigger] success_replies(action, msg_id, field, payload)[i]).contains(
                text_field("msg_id"@, msg_id),
            ),
        success_replies(action, msg_id, field, payload).last().contains(
            text_field("action"@, action),
        ),
        success_replies(action, msg_id, field, payload).last().contains(
            text_field("status"@, "success"@),
        ),
{
    let rs = success_replies(action, msg_id, field, payload);
    let last = rs.last();
    assert(last[0] == text_field("action"@, action));
    assert(last[1] == text_field("msg_id"@, msg_id));
    assert(last[3] == text_field("status"@, "success"@));
    assert forall|i: int| 0 <= i < rs.len() implies (#[trigger] rs[i]).contains(
        text_field("msg_id"@, msg_id),
    ) by {
        assert(rs[i][1] == text_field("msg_id"@, msg_id));
    }
}

} // verus!
