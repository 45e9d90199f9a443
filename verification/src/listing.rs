//! The secret-key listing that `gpg --list-secret-keys --with-colons`
//! prints, read into key blocks, and the reply built from them.
//!
//! The listing is read as text (after lossy decoding), line by line, each
//! line split at `:` into fields. A `sec` record opens a key block; `ssb`
//! records may mark it as able to encrypt; the `fpr` record right after
//! `sec` gives its fingerprint; `uid` records give its email addresses.

use vstd::prelude::*;
use vstd::string::*;
use crate::text::{chars_of, contains_text, lossy_text, string_of, texts, utf8_lossy};
use crate::reply::{field, text_field, JsonValue, JsonView, KeyInfo, KeyView, Reply};
use crate::gpg::GpgRun;

verus! {

/// The position of the first `c` in `t`, or the length of `t` when there
/// is none.
pub open spec fn sep_end(t: Seq<char>, c: char) -> nat
    decreases t.len(),
{
    if t.len() == 0 {
        0
    } else if t[0] == c {
        0
    } else {
        1 + sep_end(t.drop_first(), c)
    }
}

/// `t` split at every `c` (`str::split`): always at least one piece.
pub open spec fn split_on(t: Seq<char>, c: char) -> Seq<Seq<char>>
    decreases t.len(),
{
    let e = sep_end(t, c);
    if e >= t.len() {
        seq![t]
    } else {
        proof {
            lemma_sep_end(t, c);
        }
        seq![t.take(e as int)] + split_on(t.skip(e as int + 1), c)
    }
}

/// A line that ended in a line feed loses one carriage return before it.
pub open spec fn strip_cr(l: Seq<char>) -> Seq<char> {
    if l.len() > 0 && l.last() == '\r' {
        l.drop_last()
    } else {
        l
    }
}

/// The lines of `t` (`str::lines`): split at line feeds, a final line feed
/// opening no further line, and `\r\n` counting as one line ending.
pub open spec fn lines_of(t: Seq<char>) -> Seq<Seq<char>>
    decreases t.len(),
{
    if t.len() == 0 {
        Seq::empty()
    } else {
        let e = sep_end(t, '\n');
        if e >= t.len() {
            seq![t]
        } else {
            proof {
                lemma_sep_end(t, '\n');
            }
            seq![strip_cr(t.take(e as int))] + lines_of(t.skip(e as int + 1))
        }
    }
}

/// A key block as plain values.
pub struct BlockView {
    pub fingerprint: Seq<char>,
    pub emails: Seq<Seq<char>>,
    pub has_encrypt: bool,
}

/// Where the reading of a listing stands: the blocks closed so far, the
/// open block, and whether the previous record was a `sec` record.
pub struct ScanView {
    pub keys: Seq<BlockView>,
    pub current: Option<BlockView>,
    pub last_was_sec: bool,
}

/// The capability field (field 11) of a record marks encryption: it holds
/// `e` in either case.
pub open spec fn caps_encrypt(f: Seq<Seq<char>>) -> bool {
    f.len() > 11 && (f[11].contains('e') || f[11].contains('E'))
}

/// The email of a user id: the text between its first `<` and its first
/// `>`, when it has both and the `>` comes after the `<`. A user id
/// without such a pair gives no email.
pub open spec fn uid_email(u: Seq<char>) -> Option<Seq<char>> {
    let lt = sep_end(u, '<');
    let gt = sep_end(u, '>');
    if lt < u.len() && gt < u.len() && lt < gt {
        Some(u.subrange(lt as int + 1, gt as int))
    } else {
        None
    }
}

/// `acc` with `e` added at the end, unless it is there already.
pub open spec fn add_unique(acc: Seq<Seq<char>>, e: Seq<char>) -> Seq<Seq<char>> {
    if acc.contains(e) {
        acc
    } else {
        acc.push(e)
    }
}

/// One record read: its fields are `f`.
pub open spec fn scan_line(st: ScanView, f: Seq<Seq<char>>) -> ScanView {
    let tag = f[0];
    if tag == "sec"@ {
        ScanView {
            keys: match st.current {
                Some(k) => st.keys.push(k),
                None => st.keys,
            },
            current: Some(
                BlockView {
                    fingerprint: Seq::empty(),
                    emails: Seq::empty(),
                    has_encrypt: caps_encrypt(f),
                },
            ),
            last_was_sec: true,
        }
    } else if tag == "ssb"@ {
        ScanView {
            keys: st.keys,
            current: match st.current {
                Some(k) => Some(
                    BlockView {
                        fingerprint: k.fingerprint,
                        emails: k.emails,
                        has_encrypt: k.has_encrypt || caps_encrypt(f),
                    },
                ),
                None => None,
            },
            last_was_sec: false,
        }
    } else if tag == "fpr"@ {
        ScanView {
            keys: st.keys,
            current: match st.current {
                Some(k) => if f.len() > 9 && f[9].len() > 0 && st.last_was_sec {
                    Some(BlockView { fingerprint: f[9], emails: k.emails, has_encrypt: k.has_encrypt })
                } else {
                    Some(k)
                },
                None => None,
            },
            last_was_sec: false,
        }
    } else if tag == "uid"@ {
        ScanView {
            keys: st.keys,
            current: match st.current {
                Some(k) => if f.len() > 9 && uid_email(f[9]) is Some {
                    Some(
                        BlockView {
                            fingerprint: k.fingerprint,
                            emails: add_unique(k.emails, uid_email(f[9])->0),
                            has_encrypt: k.has_encrypt,
                        },
                    )
                } else {
                    Some(k)
                },
                None => None,
            },
            last_was_sec: false,
        }
    } else {
        ScanView {
            keys: st.keys,
            current: st.current,
            last_was_sec: tag == "grp"@ && st.last_was_sec,
        }
    }
}

/// Reading the lines `ls` from state `st`.
pub open spec fn scan_from(st: ScanView, ls: Seq<Seq<char>>) -> ScanView
    decreases ls.len(),
{
    if ls.len() == 0 {
        st
    } else {
        scan_from(scan_line(st, split_on(ls[0], ':')), ls.drop_first())
    }
}

/// Nothing read yet.
pub open spec fn initial_scan() -> ScanView {
    ScanView { keys: Seq::empty(), current: None, last_was_sec: false }
}

/// The key blocks of a listing, in order.
pub open spec fn listed_keys(text: Seq<char>) -> Seq<BlockView> {
    let st = scan_from(initial_scan(), lines_of(text));
    match st.current {
        Some(k) => st.keys.push(k),
        None => st.keys,
    }
}

pub proof fn lemma_sep_end(t: Seq<char>, c: char)
    ensures
        sep_end(t, c) <= t.len(),
        sep_end(t, c) < t.len() ==> t[sep_end(t, c) as int] == c,
        forall|j: int| 0 <= j < sep_end(t, c) ==> t[j] != c,
    decreases t.len(),
{
    if t.len() > 0 && t[0] != c {
        lemma_sep_end(t.drop_first(), c);
        assert forall|j: int| 0 <= j < sep_end(t, c) implies t[j] != c by {
            if j > 0 {
                assert(t[j] == t.drop_first()[j - 1]);
            }
        }
    }
}

pub proof fn lemma_sep_end_at(t: Seq<char>, c: char, k: nat)
    requires
        k <= t.len(),
        k == t.len() || t[k as int] == c,
        forall|j: int| 0 <= j < k ==> t[j] != c,
    ensures
        sep_end(t, c) == k,
    decreases t.len(),
{
    if t.len() > 0 && k > 0 {
        assert forall|j: int| 0 <= j < k - 1 implies t.drop_first()[j] != c by {
            assert(t.drop_first()[j] == t[j + 1]);
        }
        lemma_sep_end_at(t.drop_first(), c, (k - 1) as nat);
    }
}

/// The position of the first `c` in `chars[lo..hi]`, or `hi`.
fn find_char(chars: &Vec<char>, lo: usize, hi: usize, c: char) -> (p: usize)
    requires
        lo <= hi <= chars@.len(),
    ensures
        lo <= p <= hi,
        p - lo == sep_end(chars@.subrange(lo as int, hi as int), c),
{
    let mut p = lo;
    while p < hi && chars[p] != c
        invariant
            lo <= p <= hi <= chars@.len(),
            forall|j: int| lo <= j < p ==> chars@[j] != c,
        decreases hi - p,
    {
        p = p + 1;
    }
    proof {
        let t = chars@.subrange(lo as int, hi as int);
        lemma_sep_end_at(t, c, (p - lo) as nat);
    }
    p
}

/// Whether `chars[lo..hi]` reads `word`.
fn range_is(chars: &Vec<char>, lo: usize, hi: usize, word: &str) -> (b: bool)
    requires
        lo <= hi <= chars@.len(),
    ensures
        b == (chars@.subrange(lo as int, hi as int) == word@),
{
    let w = chars_of(word);
    if hi - lo != w.len() {
        return false;
    }
    let mut i: usize = 0;
    while i < w.len()
        invariant
            hi - lo == w@.len(),
            lo <= hi <= chars@.len(),
            w@ == word@,
            0 <= i <= w@.len(),
            forall|j: int| 0 <= j < i ==> chars@[lo + j] == w@[j],
        decreases w@.len() - i,
    {
        if chars[lo + i] != w[i] {
            assert(chars@.subrange(lo as int, hi as int)[i as int] != word@[i as int]);
            return false;
        }
        i = i + 1;
    }
    assert(chars@.subrange(lo as int, hi as int) =~= word@);
    true
}

/// The fields of `chars[lo..hi]`, split at `:`, as ranges of `chars`.
fn split_fields(chars: &Vec<char>, lo: usize, hi: usize) -> (r: Vec<(usize, usize)>)
    requires
        lo <= hi <= chars@.len(),
    ensures
        fields_at(chars@, r@, split_on(chars@.subrange(lo as int, hi as int), ':')),
        r@.len() == split_on(chars@.subrange(lo as int, hi as int), ':').len(),
        forall|k: int|
            0 <= k < r@.len() ==> r@[k].0 <= r@[k].1 <= chars@.len() && chars@.subrange(
                r@[k].0 as int,
                r@[k].1 as int,
            ) == #[trigger] split_on(chars@.subrange(lo as int, hi as int), ':')[k],
{
    let ghost whole = split_on(chars@.subrange(lo as int, hi as int), ':');
    let mut r: Vec<(usize, usize)> = Vec::new();
    let mut start = lo;
    loop
        invariant
            lo <= start <= hi <= chars@.len(),
            whole == split_on(chars@.subrange(lo as int, hi as int), ':'),
            whole == r@.map_values(|p: (usize, usize)| chars@.subrange(p.0 as int, p.1 as int))
                + split_on(chars@.subrange(start as int, hi as int), ':'),
            forall|k: int| 0 <= k < r@.len() ==> (#[trigger] r@[k]).0 <= r@[k].1 <= chars@.len(),
        ensures
            lo <= start <= hi <= chars@.len(),
            whole == r@.map_values(|p: (usize, usize)| chars@.subrange(p.0 as int, p.1 as int))
                + split_on(chars@.subrange(start as int, hi as int), ':'),
            forall|k: int| 0 <= k < r@.len() ==> (#[trigger] r@[k]).0 <= r@[k].1 <= chars@.len(),
            sep_end(chars@.subrange(start as int, hi as int), ':') >= hi - start,
        decreases hi - start,
    {
        let e = find_char(chars, start, hi, ':');
        let ghost t = chars@.subrange(start as int, hi as int);
        if e == hi {
            break;
        }
        r.push((start, e));
        proof {
            lemma_sep_end(t, ':');
            assert(t.take((e - start) as int) =~= chars@.subrange(start as int, e as int));
            assert(t.skip(e - start + 1) =~= chars@.subrange(e + 1, hi as int));
            assert(split_on(t, ':') == seq![t.take((e - start) as int)] + split_on(
                t.skip(e - start + 1),
                ':',
            ));
        }
        let ghost before = r@.drop_last();
        assert(r@.map_values(|p: (usize, usize)| chars@.subrange(p.0 as int, p.1 as int))
            =~= before.map_values(|p: (usize, usize)| chars@.subrange(p.0 as int, p.1 as int))
            + seq![chars@.subrange(start as int, e as int)]);
        start = e + 1;
        assert(whole =~= r@.map_values(|p: (usize, usize)| chars@.subrange(p.0 as int, p.1 as int))
            + split_on(chars@.subrange(start as int, hi as int), ':'));
    }
    let ghost t = chars@.subrange(start as int, hi as int);
    assert(split_on(t, ':') == seq![t]);
    r.push((start, hi));
    assert(whole =~= r@.map_values(|p: (usize, usize)| chars@.subrange(p.0 as int, p.1 as int)));
    assert forall|k: int| 0 <= k < r@.len() implies chars@.subrange(r@[k].0 as int, r@[k].1 as int)
        == #[trigger] whole[k] by {
        assert(whole[k] == r@.map_values(
            |p: (usize, usize)| chars@.subrange(p.0 as int, p.1 as int),
        )[k]);
    }
    r
}

/// The fields `fs` of a line lie in `chars` at the ranges `f`.
pub open spec fn fields_at(chars: Seq<char>, f: Seq<(usize, usize)>, fs: Seq<Seq<char>>) -> bool {
    &&& f.len() == fs.len()
    &&& forall|k: int|
        0 <= k < f.len() ==> (#[trigger] f[k]).0 <= f[k].1 <= chars.len() && chars.subrange(
            f[k].0 as int,
            f[k].1 as int,
        ) == fs[k]
}

/// One key block of the listing.
pub struct KeyBlock {
    pub fingerprint: String,
    pub emails: Vec<String>,
    pub has_encrypt: bool,
}

impl View for KeyBlock {
    type V = BlockView;

    open spec fn view(&self) -> BlockView {
        BlockView {
            fingerprint: self.fingerprint@,
            emails: texts(self.emails@),
            has_encrypt: self.has_encrypt,
        }
    }
}

/// The views of a list of key blocks.
pub open spec fn blocks_view(v: Seq<KeyBlock>) -> Seq<BlockView> {
    v.map_values(|k: KeyBlock| k@)
}

struct Scanner {
    keys: Vec<KeyBlock>,
    current: Option<KeyBlock>,
    last_was_sec: bool,
}

impl Scanner {
    spec fn state(&self) -> ScanView {
        ScanView {
            keys: blocks_view(self.keys@),
            current: match self.current {
                Some(k) => Some(k@),
                None => None,
            },
            last_was_sec: self.last_was_sec,
        }
    }

    fn new() -> (s: Scanner)
        ensures
            s.state() == initial_scan(),
    {
        let s = Scanner { keys: Vec::new(), current: None, last_was_sec: false };
        assert(blocks_view(s.keys@) =~= Seq::<BlockView>::empty());
        s
    }

    /// Reads the record `fs`.
    fn step(self, chars: &Vec<char>, f: &Vec<(usize, usize)>, Ghost(fs): Ghost<Seq<Seq<char>>>) -> (next:
        Scanner)
        requires
            fields_at(chars@, f@, fs),
            fs.len() >= 1,
        ensures
            next.state() == scan_line(self.state(), fs),
    {
        let ghost st = self.state();
        let Scanner { mut keys, current, last_was_sec } = self;
        if field_is(chars, f, 0, "sec", Ghost(fs)) {
            let ghost old_keys = blocks_view(keys@);
            match current {
                Some(k) => {
                    keys.push(k);
                    assert(blocks_view(keys@) =~= old_keys.push(k@));
                },
                None => {},
            }
            let enc = caps_encrypt_of(chars, f, Ghost(fs));
            let e: Vec<String> = Vec::new();
            assert(texts(e@) =~= Seq::<Seq<char>>::empty());
            return Scanner {
                keys,
                current: Some(KeyBlock { fingerprint: String::new(), emails: e, has_encrypt: enc }),
                last_was_sec: true,
            };
        }
        if field_is(chars, f, 0, "ssb", Ghost(fs)) {
            let cur = match current {
                Some(k) => {
                    let enc = caps_encrypt_of(chars, f, Ghost(fs));
                    Some(
                        KeyBlock {
                            fingerprint: k.fingerprint,
                            emails: k.emails,
                            has_encrypt: k.has_encrypt || enc,
                        },
                    )
                },
                None => None,
            };
            return Scanner { keys, current: cur, last_was_sec: false };
        }
        if field_is(chars, f, 0, "fpr", Ghost(fs)) {
            let cur = match current {
                Some(k) => {
                    if f.len() > 9 && f[9].0 < f[9].1 && last_was_sec {
                        let fp = string_of(chars, f[9].0, f[9].1);
                        Some(KeyBlock { fingerprint: fp, emails: k.emails, has_encrypt: k.has_encrypt })
                    } else {
                        Some(k)
                    }
                },
                None => None,
            };
            return Scanner { keys, current: cur, last_was_sec: false };
        }
        if field_is(chars, f, 0, "uid", Ghost(fs)) {
            let cur = match current {
                Some(k) => {
                    if f.len() > 9 {
                        let (lo, hi) = f[9];
                        let lt = find_char(chars, lo, hi, '<');
                        let gt = find_char(chars, lo, hi, '>');
                        if lt < hi && gt < hi && lt < gt {
                            proof {
                                let u = chars@.subrange(lo as int, hi as int);
                                assert(u == fs[9]);
                                assert(u.subrange(lt - lo + 1, gt - lo) =~= chars@.subrange(
                                    lt + 1,
                                    gt as int,
                                ));
                            }
                            let email = string_of(chars, lt + 1, gt);
                            let mut emails = k.emails;
                            let ghost before = texts(emails@);
                            if !contains_text(&emails, &email) {
                                emails.push(email);
                                assert(texts(emails@) =~= before.push(email@));
                            }
                            Some(
                                KeyBlock {
                                    fingerprint: k.fingerprint,
                                    emails,
                                    has_encrypt: k.has_encrypt,
                                },
                            )
                        } else {
                            Some(k)
                        }
                    } else {
                        Some(k)
                    }
                },
                None => None,
            };
            return Scanner { keys, current: cur, last_was_sec: false };
        }
        let grp = field_is(chars, f, 0, "grp", Ghost(fs));
        Scanner { keys, current, last_was_sec: grp && last_was_sec }
    }
}

/// Reads a listing line by line.
fn scan_listing(chars: &Vec<char>) -> (sc: Scanner)
    ensures
        sc.state() == scan_from(initial_scan(), lines_of(chars@)),
{
    let mut sc = Scanner::new();
    let n = chars.len();
    let mut pos: usize = 0;
    assert(chars@.skip(0) =~= chars@);
    while pos < n
        invariant
            pos <= n == chars@.len(),
            scan_from(initial_scan(), lines_of(chars@)) == scan_from(
                sc.state(),
                lines_of(chars@.skip(pos as int)),
            ),
        decreases n - pos,
    {
        let ghost u = chars@.skip(pos as int);
        let e = find_char(chars, pos, n, '\n');
        assert(chars@.subrange(pos as int, n as int) =~= u);
        let hi = if e < n && e > pos && chars[e - 1] == '\r' {
            e - 1
        } else {
            e
        };
        let ghost line = chars@.subrange(pos as int, hi as int);
        let ghost rest = if e < n {
            chars@.skip(e + 1)
        } else {
            Seq::<char>::empty()
        };
        proof {
            lemma_sep_end(u, '\n');
            if e < n {
                assert(u.take(e - pos) =~= chars@.subrange(pos as int, e as int));
                assert(strip_cr(u.take(e - pos)) =~= line);
                assert(u.skip(e - pos + 1) =~= rest);
                assert(lines_of(u) == seq![line] + lines_of(rest));
            } else {
                assert(line =~= u);
                assert(lines_of(u) == seq![line]);
                assert(lines_of(rest) == Seq::<Seq<char>>::empty());
            }
            assert((seq![line] + lines_of(rest))[0] == line);
            assert((seq![line] + lines_of(rest)).drop_first() =~= lines_of(rest));
        }
        let f = split_fields(chars, pos, hi);
        let ghost fs = split_on(line, ':');
        assert(fs.len() >= 1) by {
            if sep_end(line, ':') < line.len() {
                lemma_sep_end(line, ':');
            }
        }
        sc = sc.step(chars, &f, Ghost(fs));
        pos = if e < n {
            e + 1
        } else {
            n
        };
        assert(chars@.skip(pos as int) =~= rest);
    }
    assert(chars@.skip(pos as int) =~= Seq::<char>::empty());
    sc
}

/// The key blocks of the listing `text`, in order.
pub fn parse_key_listing(text: &str) -> (keys: Vec<KeyBlock>)
    ensures
        blocks_view(keys@) == listed_keys(text@),
{
    let chars = chars_of(text);
    let sc = scan_listing(&chars);
    let Scanner { mut keys, current, .. } = sc;
    let ghost before = blocks_view(keys@);
    match current {
        Some(k) => {
            keys.push(k);
            assert(blocks_view(keys@) =~= before.push(k@));
        },
        None => {},
    }
    keys
}

/// `acc` with each of `es` added in order, skipping those already there.
pub open spec fn add_all_unique(acc: Seq<Seq<char>>, es: Seq<Seq<char>>) -> Seq<Seq<char>>
    decreases es.len(),
{
    if es.len() == 0 {
        acc
    } else {
        add_unique(add_all_unique(acc, es.drop_last()), es.last())
    }
}

/// The emails of all key blocks, each once, in order of appearance.
pub open spec fn all_emails(ks: Seq<(BlockView, Seq<char>)>) -> Seq<Seq<char>>
    decreases ks.len(),
{
    if ks.len() == 0 {
        Seq::empty()
    } else {
        add_all_unique(all_emails(ks.drop_last()), ks.last().0.emails)
    }
}

/// The entries of one key block with its exported public key: one per
/// email.
pub open spec fn block_entries(k: BlockView, public_key: Seq<char>) -> Seq<KeyView> {
    k.emails.map_values(
        |e: Seq<char>|
            KeyView {
                email: e,
                fingerprint: k.fingerprint,
                has_encrypt: k.has_encrypt,
                public_key: public_key,
            },
    )
}

/// The entries of all key blocks, in order.
pub open spec fn key_entries(ks: Seq<(BlockView, Seq<char>)>) -> Seq<KeyView>
    decreases ks.len(),
{
    if ks.len() == 0 {
        Seq::empty()
    } else {
        key_entries(ks.drop_last()) + block_entries(ks.last().0, ks.last().1)
    }
}

/// The reply to `list-keys` when the keys could be listed: the emails of
/// all keys, and one entry per key and email, each with the key's
/// fingerprint, encryption capability and exported public key.
pub open spec fn keys_reply_view(msg_id: Seq<char>, ks: Seq<(BlockView, Seq<char>)>) -> Seq<
    (Seq<char>, JsonView),
> {
    seq![
        text_field("action"@, "list-keys"@),
        text_field("status"@, "success"@),
        ("emails"@, JsonView::TextList(all_emails(ks))),
        ("keys"@, JsonView::KeyList(key_entries(ks))),
        text_field("msg_id"@, msg_id),
    ]
}

/// The reply to `list-keys` when listing the keys failed.
pub open spec fn keys_failed_view(msg_id: Seq<char>) -> Seq<(Seq<char>, JsonView)> {
    seq![
        text_field("action"@, "list-keys"@),
        text_field("status"@, "error"@),
        text_field("error"@, "Failed to list keys"@),
        text_field("msg_id"@, msg_id),
    ]
}

/// Key blocks paired with their exported public keys, as plain values.
pub open spec fn exported_view(ks: Seq<(KeyBlock, String)>) -> Seq<(BlockView, Seq<char>)> {
    ks.map_values(|p: (KeyBlock, String)| (p.0@, p.1@))
}

proof fn lemma_add_all_unique(acc: Seq<Seq<char>>, es: Seq<Seq<char>>)
    requires
        acc.no_duplicates(),
    ensures
        add_all_unique(acc, es).no_duplicates(),
        forall|e: Seq<char>|
            #[trigger] add_all_unique(acc, es).contains(e) <==> acc.contains(e) || es.contains(e),
    decreases es.len(),
{
    if es.len() > 0 {
        let init = es.drop_last();
        lemma_add_all_unique(acc, init);
        let a = add_all_unique(acc, init);
        let x = es.last();
        if !a.contains(x) {
            assert forall|i: int, j: int| 0 <= i < j < a.push(x).len() implies a.push(x)[i]
                != a.push(x)[j] by {
                if j == a.len() {
                    assert(a.push(x)[i] == a[i]);
                }
            }
        }
        assert forall|e: Seq<char>| #[trigger] add_all_unique(acc, es).contains(e) <==> acc.contains(
            e,
        ) || es.contains(e) by {
            if a.push(x).contains(e) && !a.contains(e) {
                let i = choose|i: int| 0 <= i < a.push(x).len() && a.push(x)[i] == e;
                assert(i == a.len());
            }
            if a.contains(e) {
                let i = choose|i: int| 0 <= i < a.len() && a[i] == e;
                assert(a.push(x)[i] == e);
            }
            if init.contains(e) {
                let i = choose|i: int| 0 <= i < init.len() && init[i] == e;
                assert(es[i] == e);
            }
            if es.contains(e) && e != x {
                let i = choose|i: int| 0 <= i < es.len() && es[i] == e;
                assert(i < es.len() - 1);
                assert(init[i] == e);
            }
            if e == x {
                assert(es[es.len() - 1] == e);
                assert(a.push(x)[a.len() as int] == x);
            }
        }
    }
}

/// The emails of the `list-keys` reply name each address once, and they
/// are exactly the addresses of its key entries.
pub proof fn law_reply_emails(ks: Seq<(BlockView, Seq<char>)>)
    ensures
        all_emails(ks).no_duplicates(),
        forall|e: Seq<char>|
            #[trigger] all_emails(ks).contains(e) <==> exists|i: int|
                0 <= i < key_entries(ks).len() && key_entries(ks)[i].email == e,
    decreases ks.len(),
{
    if ks.len() > 0 {
        let init = ks.drop_last();
        law_reply_emails(init);
        let last = ks.last();
        lemma_add_all_unique(all_emails(init), last.0.emails);
        let ents0 = key_entries(init);
        let be = block_entries(last.0, last.1);
        assert(key_entries(ks) == ents0 + be);
        assert forall|e: Seq<char>| #[trigger] all_emails(ks).contains(e) <==> exists|i: int|
            0 <= i < key_entries(ks).len() && key_entries(ks)[i].email == e by {
            if all_emails(init).contains(e) {
                let i = choose|i: int| 0 <= i < ents0.len() && ents0[i].email == e;
                assert(key_entries(ks)[i] == ents0[i]);
            }
            if last.0.emails.contains(e) {
                let j = choose|j: int| 0 <= j < last.0.emails.len() && last.0.emails[j] == e;
                assert(key_entries(ks)[ents0.len() + j] == be[j]);
            }
            if exists|i: int| 0 <= i < key_entries(ks).len() && key_entries(ks)[i].email == e {
                let i = choose|i: int| 0 <= i < key_entries(ks).len() && key_entries(ks)[i].email == e;
                if i < ents0.len() {
                    assert(ents0[i] == key_entries(ks)[i]);
                } else {
                    assert(be[i - ents0.len()] == key_entries(ks)[i]);
                    assert(last.0.emails[i - ents0.len()] == e);
                }
            }
        }
    }
}

/// Every block read so far names each email once.
pub open spec fn emails_distinct(st: ScanView) -> bool {
    &&& forall|i: int| 0 <= i < st.keys.len() ==> (#[trigger] st.keys[i]).emails.no_duplicates()
    &&& st.current matches Some(k) ==> k.emails.no_duplicates()
}

proof fn lemma_scan_emails_distinct(st: ScanView, ls: Seq<Seq<char>>)
    requires
        emails_distinct(st),
    ensures
        emails_distinct(scan_from(st, ls)),
    decreases ls.len(),
{
    if ls.len() > 0 {
        let f = split_on(ls[0], ':');
        let nx = scan_line(st, f);
        assert(emails_distinct(nx)) by {
            if f[0] == "sec"@ {
                assert(Seq::<Seq<char>>::empty().no_duplicates());
                if let Some(k) = st.current {
                    assert forall|i: int| 0 <= i < nx.keys.len() implies (
                    #[trigger] nx.keys[i]).emails.no_duplicates() by {
                        if i < st.keys.len() {
                            assert(nx.keys[i] == st.keys[i]);
                        }
                    }
                }
            } else if f[0] == "uid"@ {
                if let Some(k) = st.current {
                    if f.len() > 9 && uid_email(f[9]) is Some {
                        lemma_add_all_unique(k.emails, seq![uid_email(f[9])->0]);
                        assert(seq![uid_email(f[9])->0].drop_last() =~= Seq::<Seq<char>>::empty());
                    }
                }
            }
        }
        lemma_scan_emails_distinct(nx, ls.drop_first());
    }
}

/// Each key block of a listing names each email once.
pub proof fn law_block_emails_distinct(text: Seq<char>)
    ensures
        forall|i: int|
            0 <= i < listed_keys(text).len() ==> (#[trigger] listed_keys(text)[i]).emails.no_duplicates(),
{
    lemma_scan_emails_distinct(initial_scan(), lines_of(text));
    let st = scan_from(initial_scan(), lines_of(text));
    if let Some(k) = st.current {
        assert forall|i: int| 0 <= i < listed_keys(text).len() implies (
        #[trigger] listed_keys(text)[i]).emails.no_duplicates() by {
            if i < st.keys.len() {
                assert(listed_keys(text)[i] == st.keys[i]);
            }
        }
    }
}

/// The text of the key listing when listing succeeded.
pub fn listing_text(run: GpgRun) -> (text: Option<String>)
    ensures
        match run {
            GpgRun::Exited { success: true, stdout, .. } => text matches Some(t) && t@ == lossy_text(
                stdout@,
            ),
            _ => text is None,
        },
        match run {
            GpgRun::Exited { success: true, stdout, .. } => vstd::utf8::valid_utf8(stdout@) ==> (
            text matches Some(t) && t@ == vstd::utf8::decode_utf8(stdout@)),
            _ => true,
        },
{
    match run {
        GpgRun::Exited { success, stdout, .. } => if success {
            Some(utf8_lossy(stdout.as_slice()))
        } else {
            None
        },
        GpgRun::NotRun(_) => None,
    }
}

/// The reply to `list-keys` when listing failed.
pub fn keys_failed_reply(msg_id: &String) -> (r: Reply)
    ensures
        r@ == keys_failed_view(msg_id@),
{
    let r = Reply {
        fields: vec![
            field("action", "list-keys".to_owned()),
            field("status", "error".to_owned()),
            field("error", "Failed to list keys".to_owned()),
            field("msg_id", msg_id.clone()),
        ],
    };
    assert(r@ =~= keys_failed_view(msg_id@));
    r
}

/// The reply to `list-keys` for the key blocks `ks`, each paired with its
/// exported public key.
pub fn keys_reply(msg_id: &String, ks: &Vec<(KeyBlock, String)>) -> (r: Reply)
    ensures
        r@ == keys_reply_view(msg_id@, exported_view(ks@)),
{
    let ghost kv = exported_view(ks@);
    let mut emails: Vec<String> = Vec::new();
    let mut entries: Vec<KeyInfo> = Vec::new();
    let mut i: usize = 0;
    assert(kv.take(0) =~= Seq::<(BlockView, Seq<char>)>::empty());
    assert(texts(emails@) =~= Seq::<Seq<char>>::empty());
    while i < ks.len()
        invariant
            kv == exported_view(ks@),
            0 <= i <= ks@.len(),
            texts(emails@) == all_emails(kv.take(i as int)),
            entries@.map_values(|k: KeyInfo| k@) == key_entries(kv.take(i as int)),
        decreases ks@.len() - i,
    {
        let k = &ks[i].0;
        let public_key = &ks[i].1;
        let ghost acc0 = texts(emails@);
        let ghost ent0 = entries@.map_values(|k: KeyInfo| k@);
        let mut j: usize = 0;
        assert(k@.emails.take(0) =~= Seq::<Seq<char>>::empty());
        assert(ent0 + block_entries(k@, public_key@).take(0) =~= ent0);
        while j < k.emails.len()
            invariant
                0 <= j <= k.emails@.len(),
                texts(emails@) == add_all_unique(acc0, k@.emails.take(j as int)),
                entries@.map_values(|k: KeyInfo| k@) == ent0 + block_entries(
                    k@,
                    public_key@,
                ).take(j as int),
            decreases k.emails@.len() - j,
        {
            let email = &k.emails[j];
            let ghost before = texts(emails@);
            assert(k@.emails.take(j + 1).drop_last() =~= k@.emails.take(j as int));
            assert(k@.emails.take(j + 1).last() == email@);
            if !contains_text(&emails, email) {
                emails.push(email.clone());
                assert(texts(emails@) =~= before.push(email@));
            }
            let ghost ents = entries@.map_values(|k: KeyInfo| k@);
            let info = KeyInfo {
                email: email.clone(),
                fingerprint: k.fingerprint.clone(),
                has_encrypt: k.has_encrypt,
                public_key: public_key.clone(),
            };
            entries.push(info);
            assert(entries@.map_values(|k: KeyInfo| k@) =~= ents.push(info@));
            assert(ent0 + block_entries(k@, public_key@).take(j + 1) =~= ent0 + block_entries(
                k@,
                public_key@,
            ).take(j as int) + seq![info@]);
            j = j + 1;
        }
        proof {
            assert(k@.emails.take(j as int) =~= k@.emails);
            assert(block_entries(k@, public_key@).take(j as int) =~= block_entries(k@, public_key@));
            assert(kv.take(i + 1).drop_last() =~= kv.take(i as int));
            assert(kv.take(i + 1).last() == (k@, public_key@));
        }
        i = i + 1;
    }
    assert(kv.take(i as int) =~= kv);
    let r = Reply {
        fields: vec![
            field("action", "list-keys".to_owned()),
            field("status", "success".to_owned()),
            ("emails".to_owned(), JsonValue::TextList(emails)),
            ("keys".to_owned(), JsonValue::KeyList(entries)),
            field("msg_id", msg_id.clone()),
        ],
    };
    assert(r@ =~= keys_reply_view(msg_id@, kv));
    r
}

/// Whether field `k` reads `word`.
fn field_is(
    chars: &Vec<char>,
    f: &Vec<(usize, usize)>,
    k: usize,
    word: &str,
    Ghost(fs): Ghost<Seq<Seq<char>>>,
) -> (b: bool)
    requires
        fields_at(chars@, f@, fs),
        k < fs.len(),
    ensures
        b == (fs[k as int] == word@),
{
    let (lo, hi) = f[k];
    range_is(chars, lo, hi, word)
}

/// Whether `chars[lo..hi]` holds `c`.
fn range_has(chars: &Vec<char>, lo: usize, hi: usize, c: char) -> (b: bool)
    requires
        lo <= hi <= chars@.len(),
    ensures
        b == chars@.subrange(lo as int, hi as int).contains(c),
{
    let p = find_char(chars, lo, hi, c);
    proof {
        let t = chars@.subrange(lo as int, hi as int);
        lemma_sep_end(t, c);
        if p < hi {
            assert(t[p - lo] == c);
        } else {
            assert(!t.contains(c)) by {
                if t.contains(c) {
                    let j = choose|j: int| 0 <= j < t.len() && t[j] == c;
                    assert(j < sep_end(t, c));
                }
            }
        }
    }
    p < hi
}

/// Whether the record `fs` marks encryption capability.
fn caps_encrypt_of(chars: &Vec<char>, f: &Vec<(usize, usize)>, Ghost(fs): Ghost<Seq<Seq<char>>>) -> (b:
    bool)
    requires
        fields_at(chars@, f@, fs),
    ensures
        b == caps_encrypt(fs),
{
    if f.len() <= 11 {
        return false;
    }
    let (lo, hi) = f[11];
    range_has(chars, lo, hi, 'e') || range_has(chars, lo, hi, 'E')
}

/// Whether field 12 of a record (capabilities) holds an `e` in either case.
pub open spec fn raw_can_encrypt(f: Seq<Seq<char>>) -> bool {
    f.len() > 11 && (f[11].contains('e') || f[11].contains('E'))
}

/// How a key block's encryption flag evolves: a `sec` record opens a block
/// whose flag says whether its own capabilities hold `e`; an `ssb` record
/// sets the open block's flag when its capabilities hold `e` and never
/// clears it, leaving the block's fingerprint and emails alone; any other
/// record leaves the flag as it was. So a block can encrypt exactly when
/// its `sec` record or one of its `ssb` records says so.
pub proof fn law_encrypt_flag(st: ScanView, f: Seq<Seq<char>>)
    requires
        f.len() >= 1,
    ensures
        f[0] == "sec"@ ==> scan_line(st, f).current is Some && scan_line(st, f).current->0.has_encrypt
            == raw_can_encrypt(f),
        f[0] == "ssb"@ && st.current is Some ==> {
            &&& scan_line(st, f).current is Some
            &&& scan_line(st, f).current->0.has_encrypt == (st.current->0.has_encrypt
                || raw_can_encrypt(f))
            &&& scan_line(st, f).current->0.fingerprint == st.current->0.fingerprint
            &&& scan_line(st, f).current->0.emails == st.current->0.emails
        },
        f[0] != "sec"@ && st.current is Some ==> scan_line(st, f).current is Some && scan_line(
            st,
            f,
        ).current->0.has_encrypt == (st.current->0.has_encrypt || (f[0] == "ssb"@
            && raw_can_encrypt(f))),
        f[0] != "sec"@ && st.current is Some && st.current->0.has_encrypt ==> scan_line(
            st,
            f,
        ).current->0.has_encrypt,
{
    reveal_strlit("sec");
    reveal_strlit("ssb");
    reveal_strlit("fpr");
    reveal_strlit("uid");
    reveal_strlit("grp");
    assert("ssb"@[1] != "sec"@[1]);
    assert("ssb"@ != "sec"@);
}

/// A key's fingerprint comes from the `fpr` record right after its `sec`
/// record, when that record's field 10 is not empty; any other `fpr`
/// record leaves the open block alone. No record but `sec` opens a block.
pub proof fn law_fingerprint_source(st: ScanView, f: Seq<Seq<char>>)
    requires
        f.len() >= 1,
        f[0] == "fpr"@,
    ensures
        st.current is None ==> scan_line(st, f).current is None,
        st.current is Some ==> scan_line(st, f).current is Some,
        st.current is Some && st.last_was_sec && f.len() > 9 && f[9].len() > 0 ==> scan_line(
            st,
            f,
        ).current->0.fingerprint == f[9],
        st.current is Some && !(st.last_was_sec && f.len() > 9 && f[9].len() > 0) ==> scan_line(
            st,
            f,
        ).current->0.fingerprint == st.current->0.fingerprint,
        st.current is Some ==> scan_line(st, f).current->0.emails == st.current->0.emails
            && scan_line(st, f).current->0.has_encrypt == st.current->0.has_encrypt,
        !scan_line(st, f).last_was_sec,
        scan_line(st, f).keys == st.keys,
{
    reveal_strlit("sec");
    reveal_strlit("ssb");
    reveal_strlit("fpr");
    assert("fpr"@[0] != "sec"@[0]);
    assert("fpr"@[0] != "ssb"@[0]);
}

/// A user-id record of the open block adds the text between the field's
/// first `<` and the first `>` after it as an email, unless the block has
/// it already; it changes nothing else.
pub proof fn law_uid_email(st: ScanView, f: Seq<Seq<char>>, lt: int, gt: int)
    requires
        f.len() > 9,
        f[0] == "uid"@,
        st.current is Some,
        0 <= lt < gt < f[9].len(),
        f[9][lt] == '<',
        f[9][gt] == '>',
        forall|j: int| 0 <= j < lt ==> f[9][j] != '<',
        forall|j: int| 0 <= j < gt ==> f[9][j] != '>',
    ensures
        scan_line(st, f).current is Some,
        scan_line(st, f).current->0.emails.contains(f[9].subrange(lt + 1, gt)),
        forall|e: Seq<char>|
            #[trigger] scan_line(st, f).current->0.emails.contains(e) <==> (
            st.current->0.emails.contains(e) || e == f[9].subrange(lt + 1, gt)),
        st.current->0.emails.contains(f[9].subrange(lt + 1, gt)) ==> scan_line(st, f).current->0.emails
            == st.current->0.emails,
        scan_line(st, f).current->0.fingerprint == st.current->0.fingerprint,
        scan_line(st, f).current->0.has_encrypt == st.current->0.has_encrypt,
        scan_line(st, f).keys == st.keys,
{
    reveal_strlit("sec");
    reveal_strlit("ssb");
    reveal_strlit("fpr");
    reveal_strlit("uid");
    assert("uid"@[0] != "sec"@[0]);
    assert("uid"@[0] != "ssb"@[0]);
    assert("uid"@[0] != "fpr"@[0]);
    lemma_sep_end_at(f[9], '<', lt as nat);
    lemma_sep_end_at(f[9], '>', gt as nat);
    let k = st.current->0;
    let e = f[9].subrange(lt + 1, gt);
    lemma_add_all_unique_single(k.emails, e);
}

proof fn lemma_add_all_unique_single(acc: Seq<Seq<char>>, e: Seq<char>)
    ensures
        add_unique(acc, e).contains(e),
        forall|x: Seq<char>| #[trigger] add_unique(acc, e).contains(x) <==> (acc.contains(x) || x == e),
{
    if !acc.contains(e) {
        assert(acc.push(e)[acc.len() as int] == e);
        assert forall|x: Seq<char>| #[trigger] acc.push(e).contains(x) <==> (acc.contains(x) || x
            == e) by {
            if acc.contains(x) {
                let j = choose|j: int| 0 <= j < acc.len() && acc[j] == x;
                assert(acc.push(e)[j] == x);
            }
            if acc.push(e).contains(x) {
                let j = choose|j: int| 0 <= j < acc.push(e).len() && acc.push(e)[j] == x;
                if j < acc.len() {
                    assert(acc[j] == x);
                }
            }
        }
    }
}

} // verus!
