use crate::decoder::{bounded_value, field_split, line_split, text_of, Decoder};
use crate::error::Error;
use crate::framing::{Decode, Encode, ExpectedResponse, ExpectedResponseCode, ResponseCodeTuple};
use crate::messages::{after_first_line, lemma_line_split_shorter, skip_line};
use vstd::prelude::*;
use vstd::utf8::encode_utf8;

verus! {

/// `LIST [keyword [argument]]`.
pub struct ListRequest {
    pub keyword: Option<String>,
    pub arg: Option<String>,
}

/// Whether posting to a group is allowed.
#[derive(Debug, Clone, Copy, PartialEq, Eq, Structural)]
pub enum GroupStatus {
    PostingPermitted,
    PostingNotPermitted,
    Moderated,
}

/// A line of `LIST ACTIVE`: name, highest and lowest article numbers, status.
pub struct Group {
    pub name: String,
    pub high: usize,
    pub low: usize,
    pub status: GroupStatus,
}

/// A line of `LIST ACTIVE.TIMES`: name, creation time, creator.
pub struct GroupTimes {
    pub name: String,
    pub age: usize,
    pub creator: String,
}

/// A line of `LIST NEWSGROUPS`: name and the first word of its description.
pub struct GroupNewsgroup {
    pub name: String,
    pub description: String,
}

pub struct GroupListResponse {
    pub groups: Vec<Group>,
}

pub struct GroupTimesResponse {
    pub groups: Vec<GroupTimes>,
}

pub struct GroupNewsgroupResponse {
    pub groups: Vec<GroupNewsgroup>,
}

impl ListRequest {
    pub fn new(keyword: Option<String>, arg: Option<String>) -> (r: ListRequest)
        ensures
            r.keyword == keyword,
            r.arg == arg,
    {
        ListRequest { keyword, arg }
    }
}

impl Encode for ListRequest {
    /// The argument is sent only together with a keyword.
    open spec fn command(&self) -> Seq<u8> {
        encode_utf8("LIST"@) + match self.keyword {
            Some(k) => encode_utf8(" "@) + encode_utf8(k@) + match self.arg {
                Some(a) => encode_utf8(" "@) + encode_utf8(a@),
                None => Seq::empty(),
            },
            None => Seq::empty(),
        }
    }

    fn encoder(&self, bytes: &mut Decoder) {
        bytes.push_str("LIST");
        if let Some(keyword) = &self.keyword {
            bytes.push_str(" ");
            bytes.push_str(keyword.as_str());
            if let Some(arg) = &self.arg {
                bytes.push_str(" ");
                bytes.push_str(arg.as_str());
                assert(bytes@ =~= old(bytes)@ + self.command());
            } else {
                assert(bytes@ =~= old(bytes)@ + self.command());
            }
        } else {
            assert(bytes@ =~= old(bytes)@ + self.command());
        }
    }
}

impl ExpectedResponse for ListRequest {
    type Response = GroupListResponse;
}

/// A result of records with one more record in front.
pub open spec fn prepend<V>(x: V, r: Result<Seq<V>, Error>) -> Result<Seq<V>, Error> {
    match r {
        Ok(s) => Ok(seq![x] + s),
        Err(e) => Err(e),
    }
}

/// The status letter of a group: `y`, `n` or `m`.
pub open spec fn status_of(f: Seq<u8>) -> Result<GroupStatus, Error> {
    if f == seq![121u8] {
        Ok(GroupStatus::PostingPermitted)
    } else if f == seq![110u8] {
        Ok(GroupStatus::PostingNotPermitted)
    } else if f == seq![109u8] {
        Ok(GroupStatus::Moderated)
    } else if text_of(f) is None {
        Err(Error::DecodeError)
    } else {
        Err(Error::DecodeFromStr)
    }
}

impl GroupStatus {
    /// Decodes the next space-delimited field as a status letter.
    pub fn get(bytes: &mut Decoder) -> (r: Result<GroupStatus, Error>)
        ensures
            final(bytes)@ == field_split(old(bytes)@, seq![32u8]).1,
            r == status_of(field_split(old(bytes)@, seq![32u8]).0),
    {
        let sp = [32u8];
        assert(sp@ == seq![32u8]);
        let f = bytes.take_field(&sp);
        let s = f.as_slice();
        if s.len() == 1 && s[0] == 121 {
            assert(s@ =~= seq![121u8]);
            Ok(GroupStatus::PostingPermitted)
        } else if s.len() == 1 && s[0] == 110 {
            assert(s@ =~= seq![110u8]);
            Ok(GroupStatus::PostingNotPermitted)
        } else if s.len() == 1 && s[0] == 109 {
            assert(s@ =~= seq![109u8]);
            Ok(GroupStatus::Moderated)
        } else {
            assert(s@ != seq![121u8] && s@ != seq![110u8] && s@ != seq![109u8]) by {
                if s@.len() == 1 {
                    assert(s@ =~= seq![s@[0]]);
                }
            }
            match crate::decoder::utf8_string(s) {
                None => Err(Error::DecodeError),
                Some(_) => Err(Error::DecodeFromStr),
            }
        }
    }
}

/// The fields of one `LIST ACTIVE` line.
pub open spec fn group_record(line: Seq<u8>) -> Result<(Seq<char>, usize, usize, GroupStatus), Error> {
    let f1 = field_split(line, seq![32u8]);
    let f2 = field_split(f1.1, seq![32u8]);
    let f3 = field_split(f2.1, seq![32u8]);
    let f4 = field_split(f3.1, seq![32u8]);
    match text_of(f1.0) {
        None => Err(Error::DecodeError),
        Some(name) => match bounded_value(f2.0, usize::MAX as int) {
            None => Err(Error::DecodeError),
            Some(high) => match bounded_value(f3.0, usize::MAX as int) {
                None => Err(Error::DecodeError),
                Some(low) => match status_of(f4.0) {
                    Ok(st) => Ok((name, high as usize, low as usize, st)),
                    Err(e) => Err(e),
                },
            },
        },
    }
}

/// The records of the lines of a body, stopping at the first line that fails.
pub open spec fn group_records(b: Seq<u8>) -> Result<Seq<(Seq<char>, usize, usize, GroupStatus)>, Error>
    decreases b.len(),
{
    if b.len() == 0 {
        Ok(Seq::empty())
    } else {
        match group_record(line_split(b).0) {
            Err(e) => Err(e),
            Ok(g) => if line_split(b).1.len() < b.len() {
                prepend(g, group_records(line_split(b).1))
            } else {
                Ok(seq![g])
            },
        }
    }
}

impl View for Group {
    type V = (Seq<char>, usize, usize, GroupStatus);

    open spec fn view(&self) -> (Seq<char>, usize, usize, GroupStatus) {
        (self.name@, self.high, self.low, self.status)
    }
}

impl Group {
    pub fn new(name: String, high: usize, low: usize, status: GroupStatus) -> (r: Group)
        ensures
            r@ == (name@, high, low, status),
    {
        Group { name, high, low, status }
    }

    pub fn name(&self) -> (r: &str)
        ensures
            r@ == self.name@,
    {
        self.name.as_str()
    }

    pub fn high(&self) -> (r: usize)
        ensures
            r == self.high,
    {
        self.high
    }

    pub fn low(&self) -> (r: usize)
        ensures
            r == self.low,
    {
        self.low
    }

    pub fn status(&self) -> (r: GroupStatus)
        ensures
            r == self.status,
    {
        self.status
    }

    fn parse(line: &mut Decoder) -> (r: Result<Group, Error>)
        ensures
            view_record(r) == group_record(old(line)@),
    {
        let name = line.get_string();
        let name = match name {
            Ok(n) => n,
            Err(e) => return Err(e),
        };
        let high = match line.get_usize() {
            Ok(v) => v,
            Err(e) => return Err(e),
        };
        let low = match line.get_usize() {
            Ok(v) => v,
            Err(e) => return Err(e),
        };
        match GroupStatus::get(line) {
            Ok(status) => Ok(Group { name, high, low, status }),
            Err(e) => Err(e),
        }
    }
}

/// A decoded record with its value replaced by its view.
pub open spec fn view_record<T: View>(r: Result<T, Error>) -> Result<T::V, Error> {
    match r {
        Ok(x) => Ok(x@),
        Err(e) => Err(e),
    }
}

/// The views of a sequence of records.
pub open spec fn record_views<T: View>(v: Seq<T>) -> Seq<T::V> {
    v.map_values(|x: T| x@)
}

impl View for GroupListResponse {
    type V = Seq<(Seq<char>, usize, usize, GroupStatus)>;

    open spec fn view(&self) -> Seq<(Seq<char>, usize, usize, GroupStatus)> {
        record_views(self.groups@)
    }
}

impl GroupListResponse {
    pub fn groups(&self) -> (r: &Vec<Group>)
        ensures
            r@ == self.groups@,
    {
        &self.groups
    }
}

impl ExpectedResponseCode for GroupListResponse {
    open spec fn table() -> Seq<ResponseCodeTuple> {
        seq![(215u16, true, true)]
    }

    proof fn lemma_table_wf() {
    }

    fn codes() -> (r: Vec<ResponseCodeTuple>) {
        let r = vec![(215u16, true, true)];
        assert(r@ =~= Self::table());
        r
    }
}

impl Decode for GroupListResponse {
    /// The rest of the status line is dropped; each following line is a group.
    open spec fn body(code: u16, bytes: Seq<u8>) -> Result<Seq<(Seq<char>, usize, usize, GroupStatus)>, Error> {
        group_records(after_first_line(bytes))
    }

    fn decoder(bytes: &mut Decoder, code: u16) -> (r: Result<Self, Error>) {
        skip_line(bytes);
        let ghost start = bytes@;
        let mut groups: Vec<Group> = Vec::new();
        loop
            invariant
                start == after_first_line(old(bytes)@),
                group_records(start) == match group_records(bytes@) {
                    Ok(s) => Ok(record_views(groups@) + s),
                    Err(e) => Err(e),
                },
            decreases bytes@.len(),
        {
            let ghost before = bytes@;
            let mut line = match bytes.line() {
                None => {
                    assert(record_views(groups@) + Seq::empty() =~= record_views(groups@));
                    return Ok(GroupListResponse { groups });
                },
                Some(l) => l,
            };
            proof {
                lemma_line_split_shorter(before);
            }
            match Group::parse(&mut line) {
                Ok(g) => {
                    let ghost rv_old = record_views(groups@);
                    let ghost g_view = g@;
                    assert(record_views(groups@.push(g)) =~= record_views(groups@) + seq![g@]);
                    groups.push(g);
                    proof {
                        assert(group_records(before) == prepend(g_view, group_records(bytes@)));
                        match group_records(bytes@) {
                            Ok(s) => {
                                assert(rv_old + (seq![g_view] + s) =~= record_views(groups@) + s);
                            },
                            Err(_) => {},
                        }
                    }
                },
                Err(e) => return Err(e),
            }
        }
    }
}

/// The fields of one `LIST ACTIVE.TIMES` line.
pub open spec fn times_record(line: Seq<u8>) -> Result<(Seq<char>, usize, Seq<char>), Error> {
    let f1 = field_split(line, seq![32u8]);
    let f2 = field_split(f1.1, seq![32u8]);
    let f3 = field_split(f2.1, seq![32u8]);
    match (text_of(f1.0), bounded_value(f2.0, usize::MAX as int), text_of(f3.0)) {
        (Some(name), Some(age), Some(creator)) => Ok((name, age as usize, creator)),
        _ => Err(Error::DecodeError),
    }
}

pub open spec fn times_records(b: Seq<u8>) -> Result<Seq<(Seq<char>, usize, Seq<char>)>, Error>
    decreases b.len(),
{
    if b.len() == 0 {
        Ok(Seq::empty())
    } else {
        match times_record(line_split(b).0) {
            Err(e) => Err(e),
            Ok(g) => if line_split(b).1.len() < b.len() {
                prepend(g, times_records(line_split(b).1))
            } else {
                Ok(seq![g])
            },
        }
    }
}

impl View for GroupTimes {
    type V = (Seq<char>, usize, Seq<char>);

    open spec fn view(&self) -> (Seq<char>, usize, Seq<char>) {
        (self.name@, self.age, self.creator@)
    }
}

impl GroupTimes {
    pub fn new(name: String, age: usize, creator: String) -> (r: GroupTimes)
        ensures
            r@ == (name@, age, creator@),
    {
        GroupTimes { name, age, creator }
    }

    pub fn name(&self) -> (r: &str)
        ensures
            r@ == self.name@,
    {
        self.name.as_str()
    }

    pub fn age(&self) -> (r: usize)
        ensures
            r == self.age,
    {
        self.age
    }

    pub fn creator(&self) -> (r: &str)
        ensures
            r@ == self.creator@,
    {
        self.creator.as_str()
    }

    fn parse(line: &mut Decoder) -> (r: Result<GroupTimes, Error>)
        ensures
            view_record(r) == times_record(old(line)@),
    {
        let name = line.get_string();
        let age = line.get_usize();
        let creator = line.get_string();
        match (name, age, creator) {
            (Ok(name), Ok(age), Ok(creator)) => Ok(GroupTimes { name, age, creator }),
            _ => Err(Error::DecodeError),
        }
    }
}

impl View for GroupTimesResponse {
    type V = Seq<(Seq<char>, usize, Seq<char>)>;

    open spec fn view(&self) -> Seq<(Seq<char>, usize, Seq<char>)> {
        record_views(self.groups@)
    }
}

impl GroupTimesResponse {
    pub fn groups(&self) -> (r: &Vec<GroupTimes>)
        ensures
            r@ == self.groups@,
    {
        &self.groups
    }
}

impl ExpectedResponseCode for GroupTimesResponse {
    open spec fn table() -> Seq<ResponseCodeTuple> {
        seq![(215u16, true, true)]
    }

    proof fn lemma_table_wf() {
    }

    fn codes() -> (r: Vec<ResponseCodeTuple>) {
        let r = vec![(215u16, true, true)];
        assert(r@ =~= Self::table());
        r
    }
}

impl Decode for GroupTimesResponse {
    /// The rest of the status line is dropped; each following line is a group.
    open spec fn body(code: u16, bytes: Seq<u8>) -> Result<Seq<(Seq<char>, usize, Seq<char>)>, Error> {
        times_records(after_first_line(bytes))
    }

    fn decoder(bytes: &mut Decoder, code: u16) -> (r: Result<Self, Error>) {
        skip_line(bytes);
        let ghost start = bytes@;
        let mut groups: Vec<GroupTimes> = Vec::new();
        loop
            invariant
                start == after_first_line(old(bytes)@),
                times_records(start) == match times_records(bytes@) {
                    Ok(s) => Ok(record_views(groups@) + s),
                    Err(e) => Err(e),
                },
            decreases bytes@.len(),
        {
            let ghost before = bytes@;
            let mut line = match bytes.line() {
                None => {
                    assert(record_views(groups@) + Seq::empty() =~= record_views(groups@));
                    return Ok(GroupTimesResponse { groups });
                },
                Some(l) => l,
            };
            proof {
                lemma_line_split_shorter(before);
            }
            match GroupTimes::parse(&mut line) {
                Ok(g) => {
                    let ghost rv_old = record_views(groups@);
                    let ghost g_view = g@;
                    assert(record_views(groups@.push(g)) =~= record_views(groups@) + seq![g@]);
                    groups.push(g);
                    proof {
                        assert(times_records(before) == prepend(g_view, times_records(bytes@)));
                        match times_records(bytes@) {
                            Ok(s) => {
                                assert(rv_old + (seq![g_view] + s) =~= record_views(groups@) + s);
                            },
                            Err(_) => {},
                        }
                    }
                },
                Err(e) => return Err(e),
            }
        }
    }
}

/// The fields of one `LIST NEWSGROUPS` line.
pub open spec fn newsgroup_record(line: Seq<u8>) -> Result<(Seq<char>, Seq<char>), Error> {
    let f1 = field_split(line, seq![32u8]);
    let f2 = field_split(f1.1, seq![32u8]);
    match (text_of(f1.0), text_of(f2.0)) {
        (Some(name), Some(description)) => Ok((name, description)),
        _ => Err(Error::DecodeError),
    }
}

pub open spec fn newsgroup_records(b: Seq<u8>) -> Result<Seq<(Seq<char>, Seq<char>)>, Error>
    decreases b.len(),
{
    if b.len() == 0 {
        Ok(Seq::empty())
    } else {
        match newsgroup_record(line_split(b).0) {
            Err(e) => Err(e),
            Ok(g) => if line_split(b).1.len() < b.len() {
                prepend(g, newsgroup_records(line_split(b).1))
            } else {
                Ok(seq![g])
            },
        }
    }
}

impl View for GroupNewsgroup {
    type V = (Seq<char>, Seq<char>);

    open spec fn view(&self) -> (Seq<char>, Seq<char>) {
        (self.name@, self.description@)
    }
}

impl GroupNewsgroup {
    pub fn new(name: String, description: String) -> (r: GroupNewsgroup)
        ensures
            r@ == (name@, description@),
    {
        GroupNewsgroup { name, description }
    }

    pub fn name(&self) -> (r: &str)
        ensures
            r@ == self.name@,
    {
        self.name.as_str()
    }

    pub fn description(&self) -> (r: &str)
        ensures
            r@ == self.description@,
    {
        self.description.as_str()
    }

    fn parse(line: &mut Decoder) -> (r: Result<GroupNewsgroup, Error>)
        ensures
            view_record(r) == newsgroup_record(old(line)@),
    {
        let name = line.get_string();
        let description = line.get_string();
        match (name, description) {
            (Ok(name), Ok(description)) => Ok(GroupNewsgroup { name, description }),
            _ => Err(Error::DecodeError),
        }
    }
}

impl View for GroupNewsgroupResponse {
    type V = Seq<(Seq<char>, Seq<char>)>;

    open spec fn view(&self) -> Seq<(Seq<char>, Seq<char>)> {
        record_views(self.groups@)
    }
}

impl GroupNewsgroupResponse {
    pub fn groups(&self) -> (r: &Vec<GroupNewsgroup>)
        ensures
            r@ == self.groups@,
    {
        &self.groups
    }
}

impl ExpectedResponseCode for GroupNewsgroupResponse {
    open spec fn table() -> Seq<ResponseCodeTuple> {
        seq![(215u16, true, true)]
    }

    proof fn lemma_table_wf() {
    }

    fn codes() -> (r: Vec<ResponseCodeTuple>) {
        let r = vec![(215u16, true, true)];
        assert(r@ =~= Self::table());
        r
    }
}

impl Decode for GroupNewsgroupResponse {
    /// The rest of the status line is dropped; each following line is a group.
    open spec fn body(code: u16, bytes: Seq<u8>) -> Result<Seq<(Seq<char>, Seq<char>)>, Error> {
        newsgroup_records(after_first_line(bytes))
    }

    fn decoder(bytes: &mut Decoder, code: u16) -> (r: Result<Self, Error>) {
        skip_line(bytes);
        let ghost start = bytes@;
        let mut groups: Vec<GroupNewsgroup> = Vec::new();
        loop
            invariant
                start == after_first_line(old(bytes)@),
                newsgroup_records(start) == match newsgroup_records(bytes@) {
                    Ok(s) => Ok(record_views(groups@) + s),
                    Err(e) => Err(e),
                },
            decreases bytes@.len(),
        {
            let ghost before = bytes@;
            let mut line = match bytes.line() {
                None => {
                    assert(record_views(groups@) + Seq::empty() =~= record_views(groups@));
                    return Ok(GroupNewsgroupResponse { groups });
                },
                Some(l) => l,
            };
            proof {
                lemma_line_split_shorter(before);
            }
            match GroupNewsgroup::parse(&mut line) {
                Ok(g) => {
                    let ghost rv_old = record_views(groups@);
                    let ghost g_view = g@;
                    assert(record_views(groups@.push(g)) =~= record_views(groups@) + seq![g@]);
                    groups.push(g);
                    proof {
                        assert(newsgroup_records(before) == prepend(g_view, newsgroup_records(bytes@)));
                        match newsgroup_records(bytes@) {
                            Ok(s) => {
                                assert(rv_old + (seq![g_view] + s) =~= record_views(groups@) + s);
                            },
                            Err(_) => {},
                        }
                    }
                },
                Err(e) => return Err(e),
            }
        }
    }
}

} // verus!
