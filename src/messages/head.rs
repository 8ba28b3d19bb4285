use crate::decoder::{bounded_value, field_split, find, lemma_find, line_split, position, text_of, utf8_string, Decoder};
use crate::error::Error;
use crate::framing::{Decode, Encode, ExpectedResponse, ExpectedResponseCode, ResponseCodeTuple};
use crate::messages::{lemma_line_split_shorter, texts};
use vstd::prelude::*;
use vstd::string::StringExecFns;
use vstd::utf8::encode_utf8;

verus! {

/// A character with the Unicode property White_Space, which `str::trim` removes.
pub open spec fn is_white_space(c: char) -> bool {
    let u = c as u32;
    ||| 9 <= u <= 13
    ||| u == 32
    ||| u == 0x85
    ||| u == 0xA0
    ||| u == 0x1680
    ||| 0x2000 <= u <= 0x200A
    ||| u == 0x2028
    ||| u == 0x2029
    ||| u == 0x202F
    ||| u == 0x205F
    ||| u == 0x3000
}

/// A text without its leading whitespace.
pub open spec fn trimmed_start(s: Seq<char>) -> Seq<char>
    decreases s.len(),
{
    if s.len() > 0 && is_white_space(s[0]) {
        trimmed_start(s.drop_first())
    } else {
        s
    }
}

/// A text without its trailing whitespace.
pub open spec fn trimmed_end(s: Seq<char>) -> Seq<char>
    decreases s.len(),
{
    if s.len() > 0 && is_white_space(s.last()) {
        trimmed_end(s.drop_last())
    } else {
        s
    }
}

/// A text without its leading and trailing whitespace.
pub open spec fn trimmed(s: Seq<char>) -> Seq<char> {
    trimmed_end(trimmed_start(s))
}

/// Relies on `str::trim`: drops leading and trailing White_Space characters.
#[verifier::external_body]
fn trim(s: &str) -> (r: &str)
    ensures
        r@ == trimmed(s@),
{
    s.trim()
}

/// Relies on `str::trim_start`: drops leading White_Space characters.
#[verifier::external_body]
fn trim_start(s: &str) -> (r: &str)
    ensures
        r@ == trimmed_start(s@),
{
    s.trim_start()
}

/// Which article a `HEAD` or `ARTICLE` request names.
pub enum HeadType {
    /// A message id, sent in angle brackets.
    MessageId(String),
    /// An article number in the selected group.
    MessageNumber(usize),
    /// The current article.
    Empty,
}

/// The argument that names an article, with the space that separates it from
/// the command; nothing for the current article.
pub open spec fn head_parameter(t: &HeadType) -> Seq<u8> {
    match t {
        HeadType::MessageId(i) => seq![32u8, 60u8] + encode_utf8(i@) + seq![62u8],
        HeadType::MessageNumber(n) => seq![32u8] + crate::decoder::decimal_digits(*n as nat),
        HeadType::Empty => Seq::empty(),
    }
}

pub(crate) fn push_head_parameter(t: &HeadType, bytes: &mut Decoder)
    ensures
        final(bytes)@ == old(bytes)@ + head_parameter(t),
{
    match t {
        HeadType::MessageId(i) => {
            let open = [32u8, 60u8];
            let close = [62u8];
            bytes.extend(&open);
            bytes.push_str(i.as_str());
            bytes.extend(&close);
            assert(old(bytes)@ + open@ + encode_utf8(i@) + close@ =~= old(bytes)@ + head_parameter(t));
        },
        HeadType::MessageNumber(n) => {
            let sp = [32u8];
            bytes.extend(&sp);
            bytes.push_decimal(*n);
            assert(old(bytes)@ + sp@ + crate::decoder::decimal_digits(*n as nat) =~= old(bytes)@
                + head_parameter(t));
        },
        HeadType::Empty => {
            assert(old(bytes)@ + Seq::<u8>::empty() =~= old(bytes)@);
        },
    }
}

/// `HEAD <article>`: asks for an article's headers.
pub struct HeadRequest {
    pub target: HeadType,
}

/// An article's number, its message id, and its headers in order of first
/// appearance, each name with its values in order.
pub struct HeadResponse {
    pub number: usize,
    pub id: String,
    pub headers: Vec<(String, Vec<String>)>,
}

/// Headers as names and values.
pub type HeaderView = Seq<(Seq<char>, Seq<Seq<char>>)>;

pub open spec fn header_view(h: Seq<(String, Vec<String>)>) -> HeaderView {
    h.map_values(|e: (String, Vec<String>)| (e.0@, texts(e.1@)))
}

/// The position of the header named `key`.
pub open spec fn find_key(h: HeaderView, key: Seq<char>) -> Option<int>
    decreases h.len(),
{
    if h.len() == 0 {
        None
    } else {
        match find_key(h.drop_last(), key) {
            Some(i) => Some(i),
            None => if h.last().0 == key {
                Some(h.len() - 1)
            } else {
                None
            },
        }
    }
}

/// A value added under `key`: after the existing values of that name, or as a new name at the end.
pub open spec fn add_header(h: HeaderView, key: Seq<char>, value: Seq<char>) -> HeaderView {
    match find_key(h, key) {
        Some(i) => h.update(i, (key, h[i].1.push(value))),
        None => h.push((key, seq![value])),
    }
}

/// A continuation line folded into the last value of the header named `key`,
/// joined by one space.
pub open spec fn fold_header(h: HeaderView, key: Option<Seq<char>>, tail: Seq<char>) -> HeaderView {
    match key {
        Some(k) => match find_key(h, k) {
            Some(i) => if h[i].1.len() > 0 {
                let vs = h[i].1;
                h.update(i, (h[i].0, vs.update(vs.len() - 1, vs.last() + seq![' '] + tail)))
            } else {
                h
            },
            None => h,
        },
        None => h,
    }
}

/// One header line: a line that starts with a space or a tab is folded into the
/// current header's last value; otherwise `name: value` adds a value (both
/// trimmed) and makes `name` the current header.
pub open spec fn header_line(h: HeaderView, key: Option<Seq<char>>, line: Seq<u8>, text: Seq<char>) -> Result<
    (HeaderView, Option<Seq<char>>),
    Error,
> {
    if line.len() > 0 && (line[0] == 32 || line[0] == 9) {
        Ok((fold_header(h, key, trimmed_start(text)), key))
    } else {
        match find(line, seq![58u8]) {
            Some(p) => match (
                text_of(line.subrange(0, p)),
                text_of(line.subrange(p + 1, line.len() as int)),
            ) {
                (Some(k), Some(v)) => Ok((add_header(h, trimmed(k), trimmed(v)), Some(trimmed(k)))),
                _ => Err(Error::DecodeError),
            },
            None => Ok((h, key)),
        }
    }
}

/// Header lines up to an empty line or the end, and the bytes after that empty line.
pub open spec fn header_block(h: HeaderView, key: Option<Seq<char>>, b: Seq<u8>) -> Result<
    (HeaderView, Seq<u8>),
    Error,
>
    decreases b.len(),
{
    if b.len() == 0 {
        Ok((h, b))
    } else {
        let line = line_split(b).0;
        let rest = line_split(b).1;
        match text_of(line) {
            None => Err(Error::DecodeError),
            Some(t) => if line.len() == 0 {
                Ok((h, rest))
            } else {
                match header_line(h, key, line, t) {
                    Err(e) => Err(e),
                    Ok((h2, k2)) => if rest.len() < b.len() {
                        header_block(h2, k2, rest)
                    } else {
                        Ok((h2, rest))
                    },
                }
            },
        }
    }
}

/// The article number and message id, then the header block; also the bytes after the block.
pub open spec fn head_of(b: Seq<u8>) -> Result<((usize, Seq<char>, HeaderView), Seq<u8>), Error> {
    let f1 = field_split(b, seq![32u8]);
    let f2 = field_split(f1.1, seq![32u8]);
    match (bounded_value(f1.0, usize::MAX as int), text_of(f2.0)) {
        (Some(n), Some(id)) => match header_block(Seq::empty(), None, f2.1) {
            Ok((h, rest)) => Ok(((n as usize, id, h), rest)),
            Err(e) => Err(e),
        },
        _ => Err(Error::DecodeError),
    }
}

/// The name of the current header, as a view.
pub open spec fn key_view(key: &Option<String>) -> Option<Seq<char>> {
    match key {
        Some(k) => Some(k@),
        None => None,
    }
}

fn find_key_exec(h: &Vec<(String, Vec<String>)>, key: &String) -> (r: Option<usize>)
    ensures
        match r {
            Some(i) => find_key(header_view(h@), key@) == Some(i as int),
            None => find_key(header_view(h@), key@) is None,
        },
{
    let ghost hv = header_view(h@);
    let mut i: usize = 0;
    assert(hv.subrange(0, 0) =~= Seq::<(Seq<char>, Seq<Seq<char>>)>::empty());
    while i < h.len()
        invariant
            i <= h@.len(),
            hv == header_view(h@),
            find_key(hv.subrange(0, i as int), key@) is None,
        decreases h@.len() - i,
    {
        assert(hv.subrange(0, i + 1).drop_last() =~= hv.subrange(0, i as int));
        if h[i].0 == *key {
            proof {
                lemma_find_key_prefix(hv, key@, i as int + 1, i as int);
            }
            return Some(i);
        }
        i += 1;
    }
    assert(hv.subrange(0, i as int) =~= hv);
    None
}

proof fn lemma_find_key_found(h: HeaderView, key: Seq<char>)
    ensures
        match find_key(h, key) {
            Some(i) => 0 <= i < h.len() && h[i].0 == key,
            None => forall|j: int| 0 <= j < h.len() ==> (#[trigger] h[j]).0 != key,
        },
    decreases h.len(),
{
    if h.len() > 0 {
        lemma_find_key_found(h.drop_last(), key);
        if find_key(h, key) is None {
            assert forall|j: int| 0 <= j < h.len() implies (#[trigger] h[j]).0 != key by {
                if j < h.len() - 1 {
                    assert(h[j] == h.drop_last()[j]);
                }
            }
        }
    }
}

/// No header name occurs twice.
pub open spec fn unique_names(h: HeaderView) -> bool {
    forall|i: int, j: int| 0 <= i < j < h.len() ==> (#[trigger] h[i]).0 != (#[trigger] h[j]).0
}

proof fn lemma_header_line_unique(h: HeaderView, key: Option<Seq<char>>, line: Seq<u8>, text: Seq<char>)
    requires
        unique_names(h),
    ensures
        header_line(h, key, line, text) matches Ok((h2, _)) ==> unique_names(h2),
{
    match key {
        Some(k) => lemma_find_key_found(h, k),
        None => {},
    }
    match find(line, seq![58u8]) {
        Some(p) => match (
            text_of(line.subrange(0, p)),
            text_of(line.subrange(p + 1, line.len() as int)),
        ) {
            (Some(k), Some(v)) => {
                lemma_find_key_found(h, trimmed(k));
                let h2 = add_header(h, trimmed(k), trimmed(v));
                assert forall|i: int, j: int| 0 <= i < j < h2.len() implies (#[trigger] h2[i]).0
                    != (#[trigger] h2[j]).0 by {
                    if find_key(h, trimmed(k)) is None && j == h.len() {
                        assert(h2[i] == h[i]);
                    }
                }
            },
            _ => {},
        },
        None => {},
    }
    if line.len() > 0 && (line[0] == 32 || line[0] == 9) {
        let h2 = fold_header(h, key, trimmed_start(text));
        assert forall|i: int, j: int| 0 <= i < j < h2.len() implies (#[trigger] h2[i]).0
            != (#[trigger] h2[j]).0 by {
            assert(h2[i].0 == h[i].0 && h2[j].0 == h[j].0);
        }
    }
}

proof fn lemma_header_block_unique(h: HeaderView, key: Option<Seq<char>>, b: Seq<u8>)
    requires
        unique_names(h),
    ensures
        header_block(h, key, b) matches Ok((h2, _)) ==> unique_names(h2),
    decreases b.len(),
{
    if b.len() > 0 {
        let line = line_split(b).0;
        let rest = line_split(b).1;
        match text_of(line) {
            Some(t) => {
                lemma_header_line_unique(h, key, line, t);
                match header_line(h, key, line, t) {
                    Ok((h2, k2)) => if rest.len() < b.len() {
                        lemma_header_block_unique(h2, k2, rest);
                    },
                    Err(_) => {},
                }
            },
            None => {},
        }
    }
}

/// The headers of a decoded head never list a name twice: a repeated header
/// adds a value under the name it already has.
pub proof fn lemma_head_names_unique(b: Seq<u8>)
    ensures
        head_of(b) matches Ok(((_, _, h), _)) ==> unique_names(h),
{
    let f2 = field_split(field_split(b, seq![32u8]).1, seq![32u8]);
    lemma_header_block_unique(Seq::empty(), None, f2.1);
}

proof fn lemma_find_key_prefix(h: HeaderView, key: Seq<char>, n: int, j: int)
    requires
        0 < n <= h.len(),
        find_key(h.subrange(0, n), key) == Some(j),
    ensures
        find_key(h, key) == Some(j),
    decreases h.len() - n,
{
    if n < h.len() {
        assert(h.subrange(0, n + 1).drop_last() =~= h.subrange(0, n));
        lemma_find_key_prefix(h, key, n + 1, j);
    } else {
        assert(h.subrange(0, n) =~= h);
    }
}

pub fn add_header_exec(h: &mut Vec<(String, Vec<String>)>, key: String, value: String)
    ensures
        header_view(final(h)@) == add_header(header_view(old(h)@), key@, value@),
{
    proof {
        lemma_find_key_found(header_view(h@), key@);
    }
    match find_key_exec(h, &key) {
        Some(i) => {
            let mut e = h.remove(i);
            e.1.push(value);
            assert(texts(e.1@) =~= texts(old(h)@[i as int].1@).push(value@));
            h.insert(i, e);
            assert(header_view(h@) =~= add_header(header_view(old(h)@), key@, value@));
        },
        None => {
            let mut vs: Vec<String> = Vec::new();
            vs.push(value);
            assert(texts(vs@) =~= seq![value@]);
            h.push((key, vs));
            assert(header_view(h@) =~= add_header(header_view(old(h)@), key@, value@));
        },
    }
}

pub fn fold_header_exec(h: &mut Vec<(String, Vec<String>)>, key: &Option<String>, tail: &str)
    ensures
        header_view(final(h)@) == fold_header(
            header_view(old(h)@),
            key_view(key),
            tail@,
        ),
{
    let k = match key {
        Some(k) => k,
        None => return,
    };
    proof {
        lemma_find_key_found(header_view(h@), k@);
    }
    let i = match find_key_exec(h, k) {
        Some(i) => i,
        None => return,
    };
    if h[i].1.len() == 0 {
        return;
    }
    let mut e = h.remove(i);
    let mut last = match e.1.pop() {
        Some(v) => v,
        None => String::new(),
    };
    last.append(" ");
    last.append(tail);
    proof {
        reveal_strlit(" ");
    }
    let ghost old_vs = old(h)@[i as int].1@;
    assert(" "@ =~= seq![' ']);
    assert(last@ == old_vs.last()@ + seq![' '] + tail@);
    e.1.push(last);
    assert(e.1@ =~= old_vs.update(old_vs.len() - 1, last));
    assert(texts(e.1@) =~= texts(old(h)@[i as int].1@).update(
        texts(old(h)@[i as int].1@).len() - 1,
        texts(old(h)@[i as int].1@).last() + seq![' '] + tail@,
    ));
    h.insert(i, e);
    assert(header_view(h@) =~= fold_header(header_view(old(h)@), Some(k@), tail@));
}

/// Decodes a header block, leaving the bytes after its empty line.
pub(crate) fn decode_header_block(bytes: &mut Decoder) -> (r: Result<Vec<(String, Vec<String>)>, Error>)
    ensures
        match header_block(Seq::empty(), None, old(bytes)@) {
            Ok((h, rest)) => r matches Ok(v) && header_view(v@) == h && final(bytes)@ == rest,
            Err(e) => r matches Err(f) && f == e,
        },
{
    let mut h: Vec<(String, Vec<String>)> = Vec::new();
    let mut key: Option<String> = None;
    assert(header_view(h@) =~= Seq::<(Seq<char>, Seq<Seq<char>>)>::empty());
    loop
        invariant
            header_block(Seq::empty(), None, old(bytes)@) == header_block(
                header_view(h@),
                key_view(&key),
                bytes@,
            ),
        decreases bytes@.len(),
    {
        let ghost before = bytes@;
        let ghost hv_before = header_view(h@);
        let ghost kv = key_view(&key);
        let line = match bytes.line() {
            None => return Ok(h),
            Some(l) => l,
        };
        proof {
            lemma_line_split_shorter(before);
        }
        let lb = line.as_slice();
        let text = match utf8_string(lb) {
            Some(t) => t,
            None => return Err(Error::DecodeError),
        };
        if lb.len() == 0 {
            return Ok(h);
        }
        let n = lb.len();
        if lb[0] == 32 || lb[0] == 9 {
            let tail = trim_start(text.as_str());
            fold_header_exec(&mut h, &key, tail);
        } else {
            let sep: [u8; 1] = [58u8];
            assert(sep@ == seq![58u8]);
            let colon = position(lb, &sep);
            proof {
                lemma_find(lb@, seq![58u8]);
            }
            match colon {
                Some(p) => {
                    let k = utf8_string(vstd::slice::slice_subrange(lb, 0, p));
                    let v = utf8_string(vstd::slice::slice_subrange(lb, p + 1, n));
                    match (k, v) {
                        (Some(k), Some(v)) => {
                            let k = trim(k.as_str()).to_owned();
                            let v = trim(v.as_str()).to_owned();
                            let k2 = k.clone();
                            add_header_exec(&mut h, k, v);
                            key = Some(k2);
                        },
                        _ => return Err(Error::DecodeError),
                    }
                },
                None => {},
            }
        }
        let ghost kv2 = key_view(&key);
        assert(header_line(hv_before, kv, lb@, text@) == Ok::<
            (HeaderView, Option<Seq<char>>),
            Error,
        >((header_view(h@), kv2)));
    }
}

impl HeadRequest {
    pub fn new(target: HeadType) -> (r: HeadRequest)
        ensures
            r.target == target,
    {
        HeadRequest { target }
    }
}

impl View for HeadResponse {
    type V = (usize, Seq<char>, HeaderView);

    open spec fn view(&self) -> (usize, Seq<char>, HeaderView) {
        (self.number, self.id@, header_view(self.headers@))
    }
}

impl HeadResponse {
    pub fn number(&self) -> (r: usize)
        ensures
            r == self.number,
    {
        self.number
    }

    pub fn id(&self) -> (r: &str)
        ensures
            r@ == self.id@,
    {
        self.id.as_str()
    }

    pub fn headers(&self) -> (r: &Vec<(String, Vec<String>)>)
        ensures
            r@ == self.headers@,
    {
        &self.headers
    }

    /// Decodes the number, the id and the header block, leaving the bytes after the block.
    pub fn parse_head(bytes: &mut Decoder) -> (r: Result<HeadResponse, Error>)
        ensures
            match head_of(old(bytes)@) {
                Ok((v, rest)) => r matches Ok(x) && x@ == v && final(bytes)@ == rest && unique_names(
                    header_view(x.headers@),
                ),
                Err(e) => r matches Err(f) && f == e,
            },
    {
        proof {
            lemma_head_names_unique(bytes@);
        }
        let number = bytes.get_usize();
        let id = bytes.get_string();
        match (number, id) {
            (Ok(number), Ok(id)) => match decode_header_block(bytes) {
                Ok(headers) => Ok(HeadResponse { number, id, headers }),
                Err(e) => Err(e),
            },
            _ => Err(Error::DecodeError),
        }
    }
}

impl Encode for HeadRequest {
    open spec fn command(&self) -> Seq<u8> {
        encode_utf8("HEAD"@) + head_parameter(&self.target)
    }

    fn encoder(&self, bytes: &mut Decoder) {
        bytes.push_str("HEAD");
        push_head_parameter(&self.target, bytes);
    }
}

impl ExpectedResponse for HeadRequest {
    type Response = HeadResponse;
}

impl ExpectedResponseCode for HeadResponse {
    open spec fn table() -> Seq<ResponseCodeTuple> {
        seq![(221u16, true, true), (430u16, true, false)]
    }

    proof fn lemma_table_wf() {
    }

    fn codes() -> (r: Vec<ResponseCodeTuple>) {
        let r = vec![(221u16, true, true), (430u16, true, false)];
        assert(r@ =~= Self::table());
        r
    }
}

impl Decode for HeadResponse {
    /// "No such article" yields the empty response; otherwise number, id and headers.
    open spec fn body(code: u16, bytes: Seq<u8>) -> Result<(usize, Seq<char>, HeaderView), Error> {
        if code == 430 {
            Ok((0usize, Seq::empty(), Seq::empty()))
        } else {
            match head_of(bytes) {
                Ok((v, _)) => Ok(v),
                Err(e) => Err(e),
            }
        }
    }

    fn decoder(bytes: &mut Decoder, code: u16) -> (r: Result<Self, Error>) {
        if code == 430 {
            let r = HeadResponse { number: 0, id: String::new(), headers: Vec::new() };
            assert(header_view(r.headers@) =~= Seq::<(Seq<char>, Seq<Seq<char>>)>::empty());
            return Ok(r);
        }
        HeadResponse::parse_head(bytes)
    }
}

} // verus!
