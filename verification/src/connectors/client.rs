//! A client of the HTTP front end.

use vstd::prelude::*;
use crate::cortices::unicus::http::{decimal_value, is_decimal_digits, u64_from_str_value};
use vstd::string::{StrSliceExecFns, StringExecFns};

verus! {

#[verifier::external_type_specification]
#[verifier::external_body]
pub struct ExReqwestError(reqwest::Error);

#[derive(Debug)]
pub enum ImmuxDBClientError {
    Everything,
    Reqwest(reqwest::Error),
}

impl From<reqwest::Error> for ImmuxDBClientError {
    fn from(error: reqwest::Error) -> (res: ImmuxDBClientError) {
        ImmuxDBClientError::Reqwest(error)
    }
}

impl vstd::std_specs::convert::FromSpecImpl<reqwest::Error> for ImmuxDBClientError {
    open spec fn obeys_from_spec() -> bool {
        true
    }

    open spec fn from_spec(error: reqwest::Error) -> ImmuxDBClientError {
        ImmuxDBClientError::Reqwest(error)
    }
}

pub type ClientResult = Result<String, ImmuxDBClientError>;

/// The character of the decimal digit `d`.
pub open spec fn digit_char(d: nat) -> char {
    if d == 0 {
        '0'
    } else if d == 1 {
        '1'
    } else if d == 2 {
        '2'
    } else if d == 3 {
        '3'
    } else if d == 4 {
        '4'
    } else if d == 5 {
        '5'
    } else if d == 6 {
        '6'
    } else if d == 7 {
        '7'
    } else if d == 8 {
        '8'
    } else {
        '9'
    }
}

/// The decimal digits of `n`, most significant first, without leading
/// zeros; zero is written `0`.
pub open spec fn decimal_text(n: nat) -> Seq<char>
    decreases n,
{
    if n < 10 {
        seq![digit_char(n)]
    } else {
        decimal_text(n / 10).push(digit_char(n % 10))
    }
}

proof fn lemma_digit_char_value(d: nat)
    requires
        d < 10,
    ensures
        digit_char(d) as int - '0' as int == d,
        '0' <= digit_char(d) <= '9',
{
    assert('0' as int == 48);
    assert('9' as int == 57);
    if d == 0 {
    } else if d == 1 {
        assert('1' as int == 49);
    } else if d == 2 {
        assert('2' as int == 50);
    } else if d == 3 {
        assert('3' as int == 51);
    } else if d == 4 {
        assert('4' as int == 52);
    } else if d == 5 {
        assert('5' as int == 53);
    } else if d == 6 {
        assert('6' as int == 54);
    } else if d == 7 {
        assert('7' as int == 55);
    } else if d == 8 {
        assert('8' as int == 56);
    }
}

proof fn lemma_decimal_text_digits(n: nat)
    ensures
        is_decimal_digits(decimal_text(n)),
        decimal_value(decimal_text(n)) == n,
        decimal_text(n)[0] != '+',
    decreases n,
{
    let t = decimal_text(n);
    lemma_digit_char_value(n % 10);
    assert(t.last() == digit_char(n % 10));
    if n < 10 {
        assert(t.drop_last() =~= Seq::<char>::empty());
        assert(decimal_value(t.drop_last()) == 0);
    } else {
        lemma_decimal_text_digits(n / 10);
        assert(t.drop_last() =~= decimal_text(n / 10));
        assert(n == (n / 10) * 10 + n % 10);
    }
    assert(decimal_value(t) == decimal_value(t.drop_last()) * 10 + (t.last() as int - '0' as int));
}

/// The server reads back the numbers the client writes: a `u64` written in
/// decimal (as a height in a request's query) is parsed as that `u64`.
pub proof fn lemma_decimal_text_parses(n: u64)
    ensures
        u64_from_str_value(decimal_text(n as nat)) == Some(n),
{
    lemma_decimal_text_digits(n as nat);
}

/// The one-character text of the decimal digit `d`.
fn digit_str(d: u128) -> (res: &'static str)
    requires
        d < 10,
    ensures
        res@ == seq![digit_char(d as nat)],
{
    if d == 0 {
        proof { reveal_strlit("0"); }
        "0"
    } else if d == 1 {
        proof { reveal_strlit("1"); }
        "1"
    } else if d == 2 {
        proof { reveal_strlit("2"); }
        "2"
    } else if d == 3 {
        proof { reveal_strlit("3"); }
        "3"
    } else if d == 4 {
        proof { reveal_strlit("4"); }
        "4"
    } else if d == 5 {
        proof { reveal_strlit("5"); }
        "5"
    } else if d == 6 {
        proof { reveal_strlit("6"); }
        "6"
    } else if d == 7 {
        proof { reveal_strlit("7"); }
        "7"
    } else if d == 8 {
        proof { reveal_strlit("8"); }
        "8"
    } else {
        proof { reveal_strlit("9"); }
        "9"
    }
}

/// `n` written in decimal, as `format!("{}", n)` writes it.
pub fn decimal_string(n: u128) -> (res: String)
    ensures
        res@ == decimal_text(n as nat),
{
    let mut res = String::from_str(digit_str(n % 10));
    let mut m: u128 = n / 10;
    while m > 0
        invariant
            m > 0 ==> decimal_text(n as nat) == decimal_text(m as nat) + res@,
            m == 0 ==> res@ == decimal_text(n as nat),
        decreases m,
    {
        let digit = String::from_str(digit_str(m % 10));
        let ghost before = res@;
        res = digit.concat(res.as_str());
        assert(decimal_text(m as nat) + before =~= decimal_text((m / 10) as nat) + res@
            || m / 10 == 0);
        m = m / 10;
    }
    res
}

/// The methods the client sends requests with.
#[derive(Debug, Clone, Copy, PartialEq, Eq, Structural)]
pub enum HttpMethod {
    Get,
    Put,
}

/// A request the client sends: its method, address and body (empty when
/// the request carries none).
pub struct ClientRequest {
    pub method: HttpMethod,
    pub url: String,
    pub body: String,
}

/// `http://{host}/`.
pub open spec fn root_url(host: Seq<char>) -> Seq<char> {
    "http://"@ + host + "/"@
}

/// `http://{host}/{grouping}/{id}`.
pub open spec fn unit_url_text(host: Seq<char>, grouping: Seq<char>, id: u128) -> Seq<char> {
    root_url(host) + grouping + "/"@ + decimal_text(id as nat)
}

/// Units to write, their contents taken as character sequences.
pub open spec fn units_view(units: Seq<(u128, String)>) -> Seq<(u128, Seq<char>)> {
    units.map_values(|u: (u128, String)| (u.0, u.1@))
}

/// The line that writes one unit: `{id}|{content}`.
pub open spec fn batch_line(unit: (u128, Seq<char>)) -> Seq<char> {
    decimal_text(unit.0 as nat) + "|"@ + unit.1
}

/// The lines that write `units`, separated by CR LF.
pub open spec fn batch_body(units: Seq<(u128, Seq<char>)>) -> Seq<char>
    decreases units.len(),
{
    if units.len() == 0 {
        Seq::empty()
    } else if units.len() == 1 {
        batch_line(units[0])
    } else {
        batch_body(units.drop_last()) + "\r\n"@ + batch_line(units.last())
    }
}

/// A client of the server at `host`.
pub struct ImmuxDBClient {
    host: String,
}

impl ImmuxDBClient {
    /// The host this client talks to.
    pub closed spec fn host_view(&self) -> Seq<char> {
        self.host@
    }

    /// The host this client talks to.
    pub fn host(&self) -> (res: &str)
        ensures
            res@ == self.host_view(),
    {
        self.host.as_str()
    }

    /// A client of the server at `host`.
    pub fn new(host: &str) -> (res: Result<ImmuxDBClient, ImmuxDBClientError>)
        ensures
            res matches Ok(client) && client.host_view() == host@,
    {
        Ok(ImmuxDBClient { host: host.to_owned() })
    }

    /// The server's address with a trailing slash: `http://{host}/`.
    fn url_root(&self) -> (res: String)
        ensures
            res@ == root_url(self.host_view()),
    {
        let mut url = String::from_str("http://");
        url.append(self.host.as_str());
        url.append("/");
        url
    }

    /// The address of a unit: `http://{host}/{grouping}/{id}`.
    fn unit_url(&self, grouping: &str, id: u128) -> (res: String)
        ensures
            res@ == unit_url_text(self.host_view(), grouping@, id),
    {
        let mut url = self.url_root();
        url.append(grouping);
        url.append("/");
        let id_text = decimal_string(id);
        url.append(id_text.as_str());
        url
    }

    /// The request that reads the unit `id` of `grouping`.
    pub fn get_by_id_request(&self, grouping: &str, id: u128) -> (res: ClientRequest)
        ensures
            res.method == HttpMethod::Get,
            res.url@ == unit_url_text(self.host_view(), grouping@, id),
            res.body@ == Seq::<char>::empty(),
    {
        ClientRequest { method: HttpMethod::Get, url: self.unit_url(grouping, id), body: String::new() }
    }

    /// The request that selects the units of `grouping` whose property
    /// `property_name` holds `unit_content`.
    pub fn get_by_property_name_request(
        &self,
        grouping: &str,
        property_name: &str,
        unit_content: &str,
    ) -> (res: ClientRequest)
        ensures
            res.method == HttpMethod::Get,
            res.url@ == root_url(self.host_view()) + grouping@ + "?select=name_property&"@
                + property_name@ + "="@ + unit_content@,
            res.body@ == Seq::<char>::empty(),
    {
        let mut url = self.url_root();
        url.append(grouping);
        url.append("?select=name_property&");
        url.append(property_name);
        url.append("=");
        url.append(unit_content);
        ClientRequest { method: HttpMethod::Get, url, body: String::new() }
    }

    /// The request that reads the history of the unit `id` of `grouping`.
    pub fn inspect_by_id_request(&self, grouping: &str, id: u128) -> (res: ClientRequest)
        ensures
            res.method == HttpMethod::Get,
            res.url@ == unit_url_text(self.host_view(), grouping@, id) + "?inspect"@,
            res.body@ == Seq::<char>::empty(),
    {
        let mut url = self.unit_url(grouping, id);
        url.append("?inspect");
        ClientRequest { method: HttpMethod::Get, url, body: String::new() }
    }

    /// The request that reverts the unit `id` of `grouping` to `height`.
    pub fn revert_by_id_request(&self, grouping: &str, id: u128, height: u64) -> (res:
        ClientRequest)
        ensures
            res.method == HttpMethod::Put,
            res.url@ == unit_url_text(self.host_view(), grouping@, id) + "?revert="@
                + decimal_text(height as nat),
            res.body@ == Seq::<char>::empty(),
    {
        let mut url = self.unit_url(grouping, id);
        url.append("?revert=");
        let height_text = decimal_string(height as u128);
        url.append(height_text.as_str());
        ClientRequest { method: HttpMethod::Put, url, body: String::new() }
    }

    /// The request that writes `content` as the unit `id` of `grouping`.
    pub fn set_unit_request(&self, grouping: &str, id: u128, content: &str) -> (res:
        ClientRequest)
        ensures
            res.method == HttpMethod::Put,
            res.url@ == unit_url_text(self.host_view(), grouping@, id),
            res.body@ == content@,
    {
        ClientRequest {
            method: HttpMethod::Put,
            url: self.unit_url(grouping, id),
            body: String::from_str(content),
        }
    }

    /// The request that writes many units of `grouping` at once: one line
    /// `{id}|{content}` per unit, lines separated by CR LF.
    pub fn set_batch_units_request(&self, grouping: &str, units: &[(u128, String)]) -> (res:
        ClientRequest)
        ensures
            res.method == HttpMethod::Put,
            res.url@ == root_url(self.host_view()) + grouping@
                + "/internal_api_target_id_identifier"@,
            res.body@ == batch_body(units_view(units@)),
    {
        let mut url = self.url_root();
        url.append(grouping);
        url.append("/internal_api_target_id_identifier");
        let mut body = String::new();
        let mut i: usize = 0;
        while i < units.len()
            invariant
                i <= units@.len(),
                body@ == batch_body(units_view(units@).take(i as int)),
            decreases units@.len() - i,
        {
            let ghost before = body@;
            if i > 0 {
                body.append("\r\n");
            }
            let id_text = decimal_string(units[i].0);
            body.append(id_text.as_str());
            body.append("|");
            body.append(units[i].1.as_str());
            proof {
                let t = units_view(units@).take(i + 1);
                assert(t.drop_last() =~= units_view(units@).take(i as int));
                assert(t.last() == units_view(units@)[i as int]);
                if i > 0 {
                    assert(body@ =~= before + "\r\n"@ + batch_line(t.last()));
                } else {
                    assert(body@ =~= batch_line(t.last()));
                }
            }
            i = i + 1;
        }
        assert(units_view(units@).take(units@.len() as int) =~= units_view(units@));
        ClientRequest { method: HttpMethod::Put, url, body }
    }

    /// The request that indexes the units of `grouping` by `property_name`.
    pub fn create_index_request(&self, grouping: &str, property_name: &str) -> (res: ClientRequest)
        ensures
            res.method == HttpMethod::Put,
            res.url@ == root_url(self.host_view()) + grouping@ + "?index="@ + property_name@,
            res.body@ == Seq::<char>::empty(),
    {
        let mut url = self.url_root();
        url.append(grouping);
        url.append("?index=");
        url.append(property_name);
        ClientRequest { method: HttpMethod::Put, url, body: String::new() }
    }

    /// The request that makes `chain_name` the server's current chain.
    pub fn switch_chain_request(&self, chain_name: &str) -> (res: ClientRequest)
        ensures
            res.method == HttpMethod::Put,
            res.url@ == root_url(self.host_view()) + "?chain="@ + chain_name@,
            res.body@ == Seq::<char>::empty(),
    {
        let mut url = self.url_root();
        url.append("?chain=");
        url.append(chain_name);
        ClientRequest { method: HttpMethod::Put, url, body: String::new() }
    }
}

} // verus!
