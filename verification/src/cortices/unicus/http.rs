//! The HTTP front end: a request's method, path, query and body to the
//! instruction it asks for.

use crate::config;
use crate::declarations::instructions::{
    instruction_model, AtomicGetOneInstruction, AtomicRevertAllInstruction,
    AtomicRevertInstruction, AtomicSetInstruction, GetTargetSpec, Instruction, InstructionModel,
    ReadNamespaceInstruction, RevertTargetSpec, SetTargetSpec, SwitchNamespaceInstruction,
};
use crate::errors::ImmuxError;
use vstd::prelude::*;
use vstd::string::{StrSliceExecFns, StringExecFns};
use vstd::utf8::encode_utf8;

verus! {

#[verifier::external_type_specification]
#[verifier::external_body]
pub struct ExUrlParseError(url::ParseError);

#[derive(Debug, Clone, Copy, PartialEq, Eq, Structural)]
pub enum HttpParsingError {
    UrlParsingError,
    BodyParsingError,
}

/// Strings taken as character sequences.
pub open spec fn strings_view(v: Seq<String>) -> Seq<Seq<char>> {
    v.map_values(|x: String| x@)
}

/// The parts of `s` between occurrences of `c`, in order; text without `c`
/// is one part.
pub open spec fn split_chars(s: Seq<char>, c: char) -> Seq<Seq<char>>
    decreases s.len(),
{
    if s.len() == 0 {
        seq![Seq::empty()]
    } else {
        let init = split_chars(s.drop_last(), c);
        if s.last() == c {
            init.push(Seq::empty())
        } else {
            init.update(init.len() - 1, init.last().push(s.last()))
        }
    }
}

/// Splitting always gives at least one part.
pub proof fn lemma_split_chars_nonempty(s: Seq<char>, c: char)
    ensures
        split_chars(s, c).len() >= 1,
    decreases s.len(),
{
    if s.len() > 0 {
        lemma_split_chars_nonempty(s.drop_last(), c);
    }
}

/// Splits `s` at every `c`.
fn split_by_char(s: &str, c: char) -> (res: Vec<String>)
    ensures
        strings_view(res@) == split_chars(s@, c),
{
    let n = s.unicode_len();
    let mut parts: Vec<String> = Vec::new();
    let mut start: usize = 0;
    let mut i: usize = 0;
    assert(s@.take(0) =~= Seq::<char>::empty());
    assert(s@.subrange(0, 0) =~= Seq::<char>::empty());
    assert(strings_view(parts@).push(s@.subrange(0, 0)) =~= split_chars(s@.take(0), c));
    while i < n
        invariant
            n == s@.len(),
            start <= i <= n,
            strings_view(parts@).push(s@.subrange(start as int, i as int)) == split_chars(
                s@.take(i as int),
                c,
            ),
        decreases n - i,
    {
        let ch = s.get_char(i);
        let ghost before = strings_view(parts@);
        let ghost current = s@.subrange(start as int, i as int);
        proof {
            lemma_split_chars_nonempty(s@.take(i as int), c);
            assert(s@.take(i + 1).drop_last() =~= s@.take(i as int));
            assert(s@.take(i + 1).last() == ch);
        }
        if ch == c {
            parts.push(s.substring_char(start, i).to_owned());
            start = i + 1;
            assert(strings_view(parts@) =~= before.push(current));
            assert(s@.subrange(start as int, i + 1) =~= Seq::<char>::empty());
            assert(strings_view(parts@).push(s@.subrange(start as int, i + 1)) =~= before.push(
                current,
            ).push(Seq::empty()));
        } else {
            assert(s@.subrange(start as int, i + 1) =~= current.push(ch));
            assert(before.push(s@.subrange(start as int, i + 1)) =~= before.push(current).update(
                before.len() as int,
                current.push(ch),
            ));
        }
        i = i + 1;
    }
    parts.push(s.substring_char(start, n).to_owned());
    assert(s@.take(n as int) =~= s@);
    assert(strings_view(parts@) =~= strings_view(parts@.drop_last()).push(
        s@.subrange(start as int, n as int),
    ));
    parts
}

/// `k` is where the first `c` of `s` is, or the end of `s` when there is none.
pub open spec fn is_first_index(s: Seq<char>, c: char, k: int) -> bool {
    &&& 0 <= k <= s.len()
    &&& k < s.len() ==> s[k] == c
    &&& forall|j: int| 0 <= j < k ==> s[j] != c
}

/// Where the first `c` of `s` is, or the end of `s` when there is none.
pub open spec fn first_index(s: Seq<char>, c: char) -> int {
    choose|k: int| is_first_index(s, c, k)
}

proof fn lemma_first_index_is(s: Seq<char>, c: char, k: int)
    requires
        is_first_index(s, c, k),
    ensures
        first_index(s, c) == k,
{
    let f = first_index(s, c);
    assert(is_first_index(s, c, f));
    if f < k {
        assert(s[f] != c);
    } else if k < f {
        assert(s[k] != c);
    }
}

/// `k` is where the first blank line of `s` (CR LF CR LF) starts.
pub open spec fn is_blank_line_at(s: Seq<char>, k: int) -> bool {
    0 <= k && k + 4 <= s.len() && s[k] == '\r' && s[k + 1] == '\n' && s[k + 2] == '\r' && s[k
        + 3] == '\n'
}

pub open spec fn is_first_blank_line(s: Seq<char>, k: int) -> bool {
    is_blank_line_at(s, k) && forall|j: int| 0 <= j < k ==> !is_blank_line_at(s, j)
}

/// The body of an HTTP message: what follows the first blank line, or
/// nothing when there is no blank line.
pub open spec fn html_body(s: Seq<char>) -> Seq<char> {
    if exists|k: int| is_first_blank_line(s, k) {
        s.skip((choose|k: int| is_first_blank_line(s, k)) + 4)
    } else {
        Seq::empty()
    }
}

/// The body of an HTTP message: what follows the first blank line, or
/// nothing when there is no blank line.
pub fn get_html_body(s: &str) -> (res: &str)
    ensures
        res@ == html_body(s@),
{
    let n = s.unicode_len();
    let mut i: usize = 0;
    while n >= 4 && i <= n - 4
        invariant
            n == s@.len(),
            forall|j: int| 0 <= j < i ==> !is_blank_line_at(s@, j),
        decreases n - i,
    {
        if s.get_char(i) == '\r' && s.get_char(i + 1) == '\n' && s.get_char(i + 2) == '\r'
            && s.get_char(i + 3) == '\n' {
            proof {
                assert(is_first_blank_line(s@, i as int));
                let k = choose|k: int| is_first_blank_line(s@, k);
                if k < i {
                    assert(!is_blank_line_at(s@, k));
                } else if i < k {
                    assert(!is_blank_line_at(s@, i as int));
                }
            }
            return s.substring_char(i + 4, n);
        }
        i = i + 1;
    }
    proof {
        assert forall|k: int| !is_first_blank_line(s@, k) by {
            if is_first_blank_line(s@, k) {
                assert(k < i);
            }
        }
    }
    let empty = "";
    proof {
        reveal_strlit("");
    }
    empty
}

/// The key a unit is kept under: its collection and id, joined by a dot.
pub open spec fn lowlevel_key(target_collection: Seq<char>, target_id: Seq<char>) -> Seq<char> {
    target_collection + seq!['.'] + target_id
}

/// The key a unit is kept under: its collection and id, joined by a dot.
pub fn get_lowlevel_key(target_collection: &str, target_id: &str) -> (res: String)
    ensures
        res@ == lowlevel_key(target_collection@, target_id@),
{
    let dot = ".";
    proof {
        reveal_strlit(".");
    }
    let key = String::from_str(target_collection).concat(dot).concat(target_id);
    assert(key@ =~= lowlevel_key(target_collection@, target_id@));
    key
}

/// The method and path of an HTTP request: the first two words of its
/// first line, or two empty strings when that line has fewer than three
/// words.
pub open spec fn request_line(body: Seq<char>) -> (Seq<char>, Seq<char>) {
    let first_line = body.take(first_index(body, '\n'));
    let words = split_chars(first_line, ' ');
    if words.len() <= 2 {
        (Seq::empty(), Seq::empty())
    } else {
        (words[0], words[1])
    }
}

/// The method and path of an HTTP request: the first two words of its
/// first line, or two empty strings when that line has fewer than three
/// words.
pub fn parse_request_line(body: &str) -> (res: (String, String))
    ensures
        (res.0@, res.1@) == request_line(body@),
{
    let n = body.unicode_len();
    let mut end: usize = 0;
    while end < n && body.get_char(end) != '\n'
        invariant
            n == body@.len(),
            end <= n,
            forall|j: int| 0 <= j < end ==> body@[j] != '\n',
        decreases n - end,
    {
        end = end + 1;
    }
    proof {
        lemma_first_index_is(body@, '\n', end as int);
    }
    let first_line = body.substring_char(0, end);
    let first_line_words = split_by_char(first_line, ' ');
    if first_line_words.len() <= 2 {
        return (String::new(), String::new());
    }
    let method = first_line_words[0].clone();
    let path = first_line_words[1].clone();
    (method, path)
}

/// A request's path and its query pairs, each key once.
pub struct UrlInformation {
    pub queries: Vec<(String, String)>,
    pub main_path: String,
}

/// Pairs of strings taken as pairs of character sequences.
pub open spec fn pairs_view(pairs: Seq<(String, String)>) -> Seq<(Seq<char>, Seq<char>)> {
    pairs.map_values(|p: (String, String)| (p.0@, p.1@))
}

/// No key occurs twice among the pairs.
pub open spec fn keys_distinct(pairs: Seq<(Seq<char>, Seq<char>)>) -> bool {
    forall|a: int, b: int| 0 <= a < pairs.len() && 0 <= b < pairs.len() && a != b ==> pairs[a].0 != pairs[b].0
}

/// The pairs after setting `key` to `value`: an existing key's value is
/// replaced in place, a new key is added at the end.
pub open spec fn pairs_insert(pairs: Seq<(Seq<char>, Seq<char>)>, key: Seq<char>, value: Seq<char>) -> Seq<
    (Seq<char>, Seq<char>),
> {
    if exists|j: int| 0 <= j < pairs.len() && pairs[j].0 == key {
        pairs.update(choose|j: int| 0 <= j < pairs.len() && pairs[j].0 == key, (key, value))
    } else {
        pairs.push((key, value))
    }
}

/// The map that a list of query pairs makes, a later pair of a key
/// replacing an earlier one.
pub open spec fn query_map(pairs: Seq<(Seq<char>, Seq<char>)>) -> Seq<(Seq<char>, Seq<char>)>
    decreases pairs.len(),
{
    if pairs.len() == 0 {
        Seq::empty()
    } else {
        pairs_insert(query_map(pairs.drop_last()), pairs.last().0, pairs.last().1)
    }
}

/// `j` is the first pair whose key is `key`.
pub open spec fn is_first_key(pairs: Seq<(Seq<char>, Seq<char>)>, key: Seq<char>, j: int) -> bool {
    0 <= j < pairs.len() && pairs[j].0 == key && forall|k: int| 0 <= k < j ==> pairs[k].0 != key
}

/// The value of the first pair whose key is `key`, if any.
pub open spec fn lookup(pairs: Seq<(Seq<char>, Seq<char>)>, key: Seq<char>) -> Option<Seq<char>> {
    if exists|j: int| is_first_key(pairs, key, j) {
        Some(pairs[choose|j: int| is_first_key(pairs, key, j)].1)
    } else {
        None
    }
}

/// The value of the last pair whose key is `key`, if any.
pub open spec fn last_value(pairs: Seq<(Seq<char>, Seq<char>)>, key: Seq<char>) -> Option<Seq<char>>
    decreases pairs.len(),
{
    if pairs.len() == 0 {
        None
    } else if pairs.last().0 == key {
        Some(pairs.last().1)
    } else {
        last_value(pairs.drop_last(), key)
    }
}

proof fn lemma_lookup_first(pairs: Seq<(Seq<char>, Seq<char>)>, key: Seq<char>, j: int)
    requires
        is_first_key(pairs, key, j),
    ensures
        lookup(pairs, key) == Some(pairs[j].1),
{
    let c = choose|c: int| is_first_key(pairs, key, c);
    assert(is_first_key(pairs, key, c));
    if c < j {
        assert(pairs[c].0 != key);
    } else if j < c {
        assert(pairs[j].0 != key);
    }
}

proof fn lemma_lookup_absent(pairs: Seq<(Seq<char>, Seq<char>)>, key: Seq<char>)
    requires
        forall|j: int| 0 <= j < pairs.len() ==> pairs[j].0 != key,
    ensures
        lookup(pairs, key) is None,
{
}

proof fn lemma_lookup_after_insert(
    m: Seq<(Seq<char>, Seq<char>)>,
    k: Seq<char>,
    v: Seq<char>,
    key: Seq<char>,
)
    requires
        keys_distinct(m),
    ensures
        keys_distinct(pairs_insert(m, k, v)),
        lookup(pairs_insert(m, k, v), key) == (if key == k {
            Some(v)
        } else {
            lookup(m, key)
        }),
{
    let r = pairs_insert(m, k, v);
    if exists|j: int| 0 <= j < m.len() && m[j].0 == k {
        let c = choose|j: int| 0 <= j < m.len() && m[j].0 == k;
        assert(r == m.update(c, (k, v)));
        assert forall|a: int, b: int| 0 <= a < r.len() && 0 <= b < r.len() && a != b implies r[a].0
            != r[b].0 by {
            if a != c && b != c {
                assert(m[a].0 != m[b].0);
            } else if a == c {
                assert(m[b].0 != m[c].0);
            } else {
                assert(m[a].0 != m[c].0);
            }
        }
        if key == k {
            assert forall|i: int| 0 <= i < c implies r[i].0 != key by {
                assert(m[i].0 != m[c].0);
            }
            lemma_lookup_first(r, key, c);
        } else {
            if exists|j: int| is_first_key(m, key, j) {
                let f = choose|j: int| is_first_key(m, key, j);
                assert(f != c);
                assert(is_first_key(r, key, f));
                lemma_lookup_first(m, key, f);
                lemma_lookup_first(r, key, f);
            } else {
                assert forall|j: int| 0 <= j < r.len() implies r[j].0 != key by {
                    if j != c && m[j].0 == key {
                        assert forall|i: int| 0 <= i < j implies m[i].0 != key by {
                            if m[i].0 == key {
                                assert(m[i].0 == m[j].0);
                            }
                        }
                        assert(is_first_key(m, key, j));
                    }
                }
                lemma_lookup_absent(r, key);
            }
        }
    } else {
        assert(r == m.push((k, v)));
        if key == k {
            assert forall|i: int| 0 <= i < m.len() implies r[i].0 != key by {
                assert(m[i].0 != k);
            }
            lemma_lookup_first(r, key, m.len() as int);
        } else {
            if exists|j: int| is_first_key(m, key, j) {
                let f = choose|j: int| is_first_key(m, key, j);
                assert(is_first_key(r, key, f));
                lemma_lookup_first(m, key, f);
                lemma_lookup_first(r, key, f);
            } else {
                assert forall|j: int| 0 <= j < r.len() implies r[j].0 != key by {
                    if j < m.len() && m[j].0 == key {
                        assert forall|i: int| 0 <= i < j implies m[i].0 != key by {
                            if m[i].0 == key {
                                assert(m[i].0 == m[j].0);
                            }
                        }
                        assert(is_first_key(m, key, j));
                    }
                }
                lemma_lookup_absent(r, key);
            }
        }
    }
}

/// A query key given more than once takes the value of its last pair: in
/// the map that a list of query pairs makes, each key occurs once, and its
/// value is that of the last pair with that key.
pub proof fn lemma_query_map_last_wins(pairs: Seq<(Seq<char>, Seq<char>)>, key: Seq<char>)
    ensures
        keys_distinct(query_map(pairs)),
        lookup(query_map(pairs), key) == last_value(pairs, key),
    decreases pairs.len(),
{
    if pairs.len() > 0 {
        lemma_query_map_last_wins(pairs.drop_last(), key);
        lemma_lookup_after_insert(
            query_map(pairs.drop_last()),
            pairs.last().0,
            pairs.last().1,
            key,
        );
    }
}

/// The number a query value spells, as `str::parse::<u64>` reads it.
pub open spec fn decimal_value(s: Seq<char>) -> int
    decreases s.len(),
{
    if s.len() == 0 {
        0
    } else {
        decimal_value(s.drop_last()) * 10 + (s.last() as int - '0' as int)
    }
}

/// One or more decimal digits.
pub open spec fn is_decimal_digits(s: Seq<char>) -> bool {
    s.len() > 0 && forall|i: int| 0 <= i < s.len() ==> '0' <= #[trigger] s[i] && s[i] <= '9'
}

/// What `str::parse::<u64>` gives: the value of an optional `+` followed by
/// decimal digits, when it fits in 64 bits.
pub open spec fn u64_from_str_value(s: Seq<char>) -> Option<u64> {
    let digits = if s.len() > 0 && s[0] == '+' {
        s.drop_first()
    } else {
        s
    };
    if is_decimal_digits(digits) && decimal_value(digits) <= u64::MAX {
        Some(decimal_value(digits) as u64)
    } else {
        None
    }
}

/// `str::parse::<u64>`. Claimed, as std documents it: an optional `+`
/// followed by decimal digits is read as a number, unless it overflows;
/// anything else is an error. The error's kind is not stated.
#[verifier::external_body]
fn parse_u64_decimal(s: &str) -> (res: Result<u64, std::num::ParseIntError>)
    ensures
        res is Ok <==> u64_from_str_value(s@) is Some,
        res matches Ok(v) ==> u64_from_str_value(s@) == Some(v),
{
    s.parse::<u64>()
}

/// The number the value of a query key spells, if the key is there and its
/// value is a number.
pub open spec fn numeric_query(pairs: Seq<(Seq<char>, Seq<char>)>, key: Seq<char>) -> Option<u64> {
    match lookup(pairs, key) {
        Some(v) => u64_from_str_value(v),
        None => None,
    }
}

fn insert_pair(pairs: &mut Vec<(String, String)>, key: String, value: String)
    requires
        keys_distinct(pairs_view(old(pairs)@)),
    ensures
        pairs_view(final(pairs)@) == pairs_insert(pairs_view(old(pairs)@), key@, value@),
        keys_distinct(pairs_view(final(pairs)@)),
{
    let ghost before = pairs_view(pairs@);
    let mut j: usize = 0;
    while j < pairs.len()
        invariant
            pairs@ == old(pairs)@,
            before == pairs_view(pairs@),
            keys_distinct(before),
            j <= pairs@.len(),
            forall|k: int| 0 <= k < j ==> before[k].0 != key@,
        decreases pairs@.len() - j,
    {
        if pairs[j].0 == key {
            proof {
                let c = choose|c: int| 0 <= c < before.len() && before[c].0 == key@;
                assert(before[j as int].0 == key@);
                assert(c == j);
            }
            pairs.set(j, (key, value));
            assert(pairs_view(pairs@) =~= before.update(j as int, (key@, value@)));
            return;
        }
        j = j + 1;
    }
    pairs.push((key, value));
    assert(pairs_view(pairs@) =~= before.push((key@, value@)));
}

/// What the url crate gives for a full URL: its query pairs in order and its
/// path, or nothing when it does not parse.
pub uninterp spec fn url_parts(url: Seq<char>) -> Option<(Seq<(Seq<char>, Seq<char>)>, Seq<char>)>;

/// `url::Url::parse`, then the decoded query pairs in order and the path.
/// Claimed: it succeeds, and gives, what `url_parts` names for the text,
/// which depends on the text alone; what the url crate accepts and how it
/// normalizes the path is not stated here.
#[verifier::external_body]
fn parse_url(input: &str) -> (res: Result<(Vec<(String, String)>, String), url::ParseError>)
    ensures
        match url_parts(input@) {
            None => res is Err,
            Some((pairs, path)) => res matches Ok((v, p)) && pairs_view(v@) == pairs && p@ == path,
        },
{
    match url::Url::parse(input) {
        Err(error) => Err(error),
        Ok(parsed) => Ok((parsed.query_pairs().into_owned().collect(), parsed.path().to_string())),
    }
}

/// The host a request path is read against.
pub open spec fn local_base() -> Seq<char> {
    "http://127.0.0.1"@
}

/// Reads a request path against the local host: its query pairs, a later
/// pair of a key replacing an earlier one, and its path. A path the url
/// crate rejects gives `UrlParsingError`.
pub fn parse_path(path: &str) -> (res: Result<UrlInformation, HttpParsingError>)
    ensures
        match url_parts(local_base() + path@) {
            None => res == Err::<UrlInformation, HttpParsingError>(HttpParsingError::UrlParsingError),
            Some((pairs, main_path)) => res matches Ok(info) && pairs_view(info.queries@)
                == query_map(pairs) && info.main_path@ == main_path && keys_distinct(
                pairs_view(info.queries@),
            ),
        },
{
    let path_to_parse = String::from_str("http://127.0.0.1").concat(path);
    match parse_url(path_to_parse.as_str()) {
        Err(_error) => Err(HttpParsingError::UrlParsingError),
        Ok((pairs, main_path)) => Ok(url_information_from_parts(&pairs, main_path)),
    }
}

/// The information of a URL out of its query pairs, in order, and its path:
/// the pairs make a map in which a later pair of a key replaces an earlier
/// one, kept in the order the keys first came.
pub fn url_information_from_parts(pairs: &Vec<(String, String)>, main_path: String) -> (res:
    UrlInformation)
    ensures
        pairs_view(res.queries@) == query_map(pairs_view(pairs@)),
        keys_distinct(pairs_view(res.queries@)),
        res.main_path@ == main_path@,
{
    let mut queries: Vec<(String, String)> = Vec::new();
    let mut i: usize = 0;
    while i < pairs.len()
        invariant
            i <= pairs@.len(),
            keys_distinct(pairs_view(queries@)),
            pairs_view(queries@) == query_map(pairs_view(pairs@).take(i as int)),
        decreases pairs@.len() - i,
    {
        let key = pairs[i].0.clone();
        let value = pairs[i].1.clone();
        assert(pairs_view(pairs@).take(i + 1).drop_last() =~= pairs_view(pairs@).take(i as int));
        insert_pair(&mut queries, key, value);
        i = i + 1;
    }
    assert(pairs_view(pairs@).take(pairs@.len() as int) =~= pairs_view(pairs@));
    UrlInformation { queries, main_path }
}

impl UrlInformation {
    /// The index of the first query pair whose key is `key`, if any.
    fn find_query(&self, key: &str) -> (res: Option<usize>)
        ensures
            match res {
                Some(j) => is_first_key(pairs_view(self.queries@), key@, j as int),
                None => lookup(pairs_view(self.queries@), key@) is None,
            },
    {
        let ghost pairs = pairs_view(self.queries@);
        let key_string = key.to_owned();
        let mut j: usize = 0;
        while j < self.queries.len()
            invariant
                pairs == pairs_view(self.queries@),
                key_string@ == key@,
                j <= self.queries@.len(),
                forall|k: int| 0 <= k < j ==> pairs[k].0 != key@,
            decreases self.queries@.len() - j,
        {
            if self.queries[j].0 == key_string {
                return Some(j);
            }
            j = j + 1;
        }
        proof {
            assert forall|k: int| !is_first_key(pairs, key@, k) by {
                if is_first_key(pairs, key@, k) {
                    assert(k < j);
                }
            }
        }
        None
    }

    /// The number the value of `key` spells; a missing key or a value that is
    /// not a number gives `UrlParsingError`.
    pub fn extract_numeric_query(&self, key: &str) -> (res: Result<u64, ImmuxError>)
        ensures
            match numeric_query(pairs_view(self.queries@), key@) {
                Some(n) => res == Ok::<u64, ImmuxError>(n),
                None => res == Err::<u64, ImmuxError>(
                    ImmuxError::HttpParsing(HttpParsingError::UrlParsingError),
                ),
            },
    {
        match self.extract_string_query(key) {
            None => Err(ImmuxError::HttpParsing(HttpParsingError::UrlParsingError)),
            Some(string) => match parse_u64_decimal(string.as_str()) {
                Err(_error) => Err(ImmuxError::HttpParsing(HttpParsingError::UrlParsingError)),
                Ok(value) => Ok(value),
            },
        }
    }

    /// The value of `key`, if the key is there.
    pub fn extract_string_query(&self, key: &str) -> (res: Option<String>)
        ensures
            match lookup(pairs_view(self.queries@), key@) {
                Some(v) => res matches Some(s) && s@ == v,
                None => res is None,
            },
    {
        match self.find_query(key) {
            None => None,
            Some(j) => {
                proof {
                    let pairs = pairs_view(self.queries@);
                    let c = choose|c: int| is_first_key(pairs, key@, c);
                    assert(is_first_key(pairs, key@, c));
                    if c < j {
                        assert(pairs[c].0 != key@);
                    } else if j < c {
                        assert(pairs[j as int].0 != key@);
                    }
                }
                Some(self.queries[j].1.clone())
            },
        }
    }
}

/// The key a request path names: its second and third segments joined by
/// a dot, or nothing when it has fewer than three segments.
pub open spec fn path_key(main_path: Seq<char>) -> Seq<char> {
    let segments = split_chars(main_path, '/');
    if segments.len() >= 3 {
        lowlevel_key(segments[1], segments[2])
    } else {
        Seq::empty()
    }
}

/// The instruction an HTTP request asks for. A GET reads the chain's name
/// when the query names a chain, else the unit the path names, at the
/// height the query gives, if any. A PUT reverts everything to the height
/// the query gives for `revert_all`, or the unit to the height it gives for
/// `revert`, or switches to the chain the query names, or else sets the
/// unit to the request's body. Another method gives `BodyParsingError`, a
/// path the url crate rejects `UrlParsingError`.
pub open spec fn http_request_instruction(message: Seq<char>) -> Result<
    InstructionModel,
    HttpParsingError,
> {
    let (method, full_path) = request_line(message);
    match url_parts(local_base() + full_path) {
        None => Err(HttpParsingError::UrlParsingError),
        Some((pairs, main_path)) => {
            let queries = query_map(pairs);
            let key = encode_utf8(path_key(main_path));
            if method == "GET"@ {
                if lookup(queries, config::CHAIN_KEYWORD@) is Some {
                    Ok(InstructionModel::ReadNamespace)
                } else {
                    Ok(
                        InstructionModel::AtomicGetOne(
                            key,
                            numeric_query(queries, config::HEIGHT_QUERY_KEYWORD@),
                        ),
                    )
                }
            } else if method == "PUT"@ {
                match numeric_query(queries, config::REVERTALL_QUERY_KEYWORD@) {
                    Some(height) => Ok(InstructionModel::AtomicRevertAll(height)),
                    None => match numeric_query(queries, config::REVERT_QUERY_KEYWORD@) {
                        Some(height) => Ok(InstructionModel::AtomicRevert(seq![(key, height)])),
                        None => match lookup(queries, config::CHAIN_KEYWORD@) {
                            Some(namespace) => Ok(
                                InstructionModel::SwitchNamespace(encode_utf8(namespace)),
                            ),
                            None => Ok(
                                InstructionModel::AtomicSet(
                                    seq![(key, encode_utf8(html_body(message)))],
                                ),
                            ),
                        },
                    },
                }
            } else {
                Err(HttpParsingError::BodyParsingError)
            }
        },
    }
}

/// A GET that names no chain reads the unit its path names at the height its
/// query gives: no height key reads the latest value (no height), and a
/// height key (its last value, when given twice) gives the height it spells
/// in decimal, or none where it spells no `u64`.
pub proof fn lemma_get_height_from_query(message: Seq<char>)
    requires
        request_line(message).0 == "GET"@,
        url_parts(local_base() + request_line(message).1) matches Some((pairs, _)) && last_value(
            pairs,
            config::CHAIN_KEYWORD@,
        ) is None,
    ensures
        url_parts(local_base() + request_line(message).1) matches Some((pairs, _))
            && http_request_instruction(message) matches Ok(InstructionModel::AtomicGetOne(_, h))
            && (last_value(pairs, config::HEIGHT_QUERY_KEYWORD@) is None ==> h is None) && (
        last_value(pairs, config::HEIGHT_QUERY_KEYWORD@) matches Some(v) ==> h
            == u64_from_str_value(v)),
{
    let pairs = url_parts(local_base() + request_line(message).1).unwrap().0;
    lemma_query_map_last_wins(pairs, config::CHAIN_KEYWORD@);
    lemma_query_map_last_wins(pairs, config::HEIGHT_QUERY_KEYWORD@);
}

/// The key the path of `url_info` names.
fn path_lowlevel_key(main_path: &String) -> (res: Vec<u8>)
    ensures
        res@ == encode_utf8(path_key(main_path@)),
{
    let segments = split_by_char(main_path.as_str(), '/');
    let low_key = if segments.len() >= 3 {
        get_lowlevel_key(segments[1].as_str(), segments[2].as_str())
    } else {
        String::new()
    };
    vstd::slice::slice_to_vec(low_key.as_str().as_bytes())
}

/// Reads the instruction an HTTP request asks for.
pub fn parse_http_request(message: &str) -> (res: Result<Instruction, HttpParsingError>)
    ensures
        match http_request_instruction(message@) {
            Ok(m) => res matches Ok(i) && instruction_model(i) == m,
            Err(e) => res == Err::<Instruction, HttpParsingError>(e),
        },
{
    let (method, full_path) = parse_request_line(message);
    let url_info = parse_path(full_path.as_str())?;
    let low_key = path_lowlevel_key(&url_info.main_path);
    let get = "GET".to_owned();
    let put = "PUT".to_owned();
    if method == get {
        if let Some(_namespace) = url_info.extract_string_query(config::CHAIN_KEYWORD) {
            return Ok(Instruction::ReadNamespace(ReadNamespaceInstruction {}));
        }
        let height = match url_info.extract_numeric_query(config::HEIGHT_QUERY_KEYWORD) {
            Ok(height) => Some(height),
            Err(_) => None,
        };
        Ok(
            Instruction::AtomicGetOne(
                AtomicGetOneInstruction { target: GetTargetSpec { key: low_key, height } },
            ),
        )
    } else if method == put {
        if let Ok(height) = url_info.extract_numeric_query(config::REVERTALL_QUERY_KEYWORD) {
            return Ok(
                Instruction::AtomicRevertAll(AtomicRevertAllInstruction { target_height: height }),
            );
        }
        if let Ok(height) = url_info.extract_numeric_query(config::REVERT_QUERY_KEYWORD) {
            let targets = vec![RevertTargetSpec { key: low_key, height }];
            let instruction = Instruction::AtomicRevert(AtomicRevertInstruction { targets });
            assert(instruction_model(instruction) matches InstructionModel::AtomicRevert(t) && t
                =~= seq![(targets@[0].key@, height)]);
            return Ok(instruction);
        }
        if let Some(namespace) = url_info.extract_string_query(config::CHAIN_KEYWORD) {
            return Ok(
                Instruction::SwitchNamespace(
                    SwitchNamespaceInstruction {
                        new_namespace: vstd::slice::slice_to_vec(namespace.as_str().as_bytes()),
                    },
                ),
            );
        }
        let value = get_html_body(message);
        let targets = vec![
            SetTargetSpec { key: low_key, value: vstd::slice::slice_to_vec(value.as_bytes()) },
        ];
        let instruction = Instruction::AtomicSet(AtomicSetInstruction { targets });
        assert(instruction_model(instruction) matches InstructionModel::AtomicSet(t) && t
            =~= seq![(targets@[0].key@, targets@[0].value@)]);
        Ok(instruction)
    } else {
        Err(HttpParsingError::BodyParsingError)
    }
}

} // verus!
