//! The request parser/router: interprets an inbound path token and
//! request body, and produces a typed outcome — a configuration change,
//! a data operation, or a typed error.

use vstd::prelude::*;
use vstd::string::StringExecFns;
use vstd::string::StrSliceExecFns;
use vstd::string::StringSliceAdditionalSpecFns;
use crate::ipv4::AddrParseError;
use crate::json::{
    doc_shape, json_doc, json_from_slice, shape_model, value_shape, DocModel, DocShape, ElemModel,
    EntryModel,
};
use crate::mmds_config::{pool_all_valid, Error, MmdsConfig};

verus! {

/// An inbound request body: the raw bytes of the HTTP payload.
pub struct Body {
    pub body: Vec<u8>,
}

impl View for Body {
    type V = Seq<u8>;

    open spec fn view(&self) -> Seq<u8> {
        self.body@
    }
}

impl Body {
    /// A body holding the UTF-8 bytes of `text`.
    pub fn new(text: &str) -> (r: Body)
        ensures
            r@ == text.spec_bytes(),
    {
        Body { body: text.as_bytes_vec() }
    }

    /// The raw bytes of the body.
    pub fn raw(&self) -> (r: &[u8])
        ensures
            r@ == self@,
    {
        self.body.as_slice()
    }
}

/// A parsed request: the outcome vocabulary handed to the VM control
/// plane.
pub enum ParsedRequest {
    /// Read the current MMDS configuration state.
    GetConfiguration,
    /// Apply a validated configuration change.
    SetConfiguration(MmdsConfig),
    /// Replace the MMDS data tree with the given document.
    PutData(serde_json::Value),
    /// Merge the given document into the MMDS data tree.
    PatchData(serde_json::Value),
}

/// Why a request body was refused.
pub enum BodyError {
    /// The body is not syntactically valid JSON; carries the JSON
    /// parser's message.
    Syntax(String),
    /// A configuration body must be a JSON object.
    NotAnObject,
    /// A configuration body holds a field other than
    /// `ipv4_address_pool`; carries the offending key.
    UnknownField(String),
    /// A configuration body has no `ipv4_address_pool` field.
    MissingField,
    /// The `ipv4_address_pool` field is not an array of strings.
    NotAStringArray,
}

/// Why a request was refused.
pub enum RequestError {
    /// The first PUT path token is neither absent nor the
    /// configuration marker; carries the offending token.
    UnrecognizedPath(String),
    /// The body is not valid JSON or does not match the configuration
    /// schema.
    MalformedBody(BodyError),
    /// A pool entry is not a dotted-decimal IPv4 address.
    InvalidConfig(Error),
    /// The configuration's address pool is empty: syntactically valid,
    /// rejected as a business rule.
    EmptyAddressPool,
}

/// The model of a parsed request: each outcome over the views its
/// payload is specified by.
pub enum RequestModel {
    GetConfiguration,
    SetConfiguration(Seq<Seq<char>>),
    PutData(DocModel),
    PatchData(DocModel),
}

/// The model of a body error; the syntax message is the JSON parser's
/// and is not modelled.
pub enum BodyErrorModel {
    Syntax,
    NotAnObject,
    UnknownField(Seq<char>),
    MissingField,
    NotAStringArray,
}

/// The model of a request error.
pub enum ErrorModel {
    UnrecognizedPath(Seq<char>),
    MalformedBody(BodyErrorModel),
    InvalidConfig(Error),
    EmptyAddressPool,
}

pub open spec fn body_error_model(b: BodyError) -> BodyErrorModel {
    match b {
        BodyError::Syntax(_) => BodyErrorModel::Syntax,
        BodyError::NotAnObject => BodyErrorModel::NotAnObject,
        BodyError::UnknownField(k) => BodyErrorModel::UnknownField(k@),
        BodyError::MissingField => BodyErrorModel::MissingField,
        BodyError::NotAStringArray => BodyErrorModel::NotAStringArray,
    }
}

pub open spec fn error_model(e: RequestError) -> ErrorModel {
    match e {
        RequestError::UnrecognizedPath(t) => ErrorModel::UnrecognizedPath(t@),
        RequestError::MalformedBody(b) => ErrorModel::MalformedBody(body_error_model(b)),
        RequestError::InvalidConfig(c) => ErrorModel::InvalidConfig(c),
        RequestError::EmptyAddressPool => ErrorModel::EmptyAddressPool,
    }
}

pub open spec fn parsed_model(p: ParsedRequest) -> RequestModel {
    match p {
        ParsedRequest::GetConfiguration => RequestModel::GetConfiguration,
        ParsedRequest::SetConfiguration(c) => RequestModel::SetConfiguration(c.pool_model()),
        ParsedRequest::PutData(v) => RequestModel::PutData(value_shape(v)),
        ParsedRequest::PatchData(v) => RequestModel::PatchData(value_shape(v)),
    }
}

/// The model of a parse result.
pub open spec fn req_model(r: Result<ParsedRequest, RequestError>) -> Result<
    RequestModel,
    ErrorModel,
> {
    match r {
        Ok(p) => Ok(parsed_model(p)),
        Err(e) => Err(error_model(e)),
    }
}

/// The one recognized configuration field.
pub open spec fn field_name() -> Seq<char> {
    "ipv4_address_pool"@
}

/// The key of the first field that is not the recognized one, if any.
pub open spec fn first_bad_key(entries: Seq<EntryModel>) -> Option<Seq<char>>
    decreases entries.len(),
{
    if entries.len() == 0 {
        None
    } else if entries[0].0 != field_name() {
        Some(entries[0].0)
    } else {
        first_bad_key(entries.subrange(1, entries.len() as int))
    }
}

/// The strings of the pool field's array, provided every element is a
/// string.
pub open spec fn field_strings(elems: Seq<ElemModel>) -> Option<Seq<Seq<char>>> {
    if forall|m: int| 0 <= m < elems.len() ==> (#[trigger] elems[m]) is Some {
        Some(
            elems.map(
                |i: int, e: ElemModel|
                    match e {
                        Some(s) => s,
                        None => Seq::empty(),
                    },
            ),
        )
    } else {
        None
    }
}

/// The strict configuration schema: an object holding exactly the
/// `ipv4_address_pool` field, an array of strings.
pub open spec fn config_check(doc: DocModel) -> Result<Seq<Seq<char>>, BodyErrorModel> {
    match doc {
        None => Err(BodyErrorModel::NotAnObject),
        Some(entries) => match first_bad_key(entries) {
            Some(k) => Err(BodyErrorModel::UnknownField(k)),
            None => if entries.len() == 0 {
                Err(BodyErrorModel::MissingField)
            } else {
                match entries[0].1 {
                    None => Err(BodyErrorModel::NotAStringArray),
                    Some(elems) => match field_strings(elems) {
                        None => Err(BodyErrorModel::NotAStringArray),
                        Some(pool) => Ok(pool),
                    },
                }
            },
        },
    }
}

/// The outcome of a configuration PUT, given what the body decoded to
/// (`None`: not JSON at all).
pub open spec fn config_outcome(parsed: Option<DocModel>) -> Result<RequestModel, ErrorModel> {
    match parsed {
        None => Err(ErrorModel::MalformedBody(BodyErrorModel::Syntax)),
        Some(doc) => match config_check(doc) {
            Err(be) => Err(ErrorModel::MalformedBody(be)),
            Ok(pool) => if !pool_all_valid(pool) {
                Err(ErrorModel::InvalidConfig(Error::IPv4ParseError(AddrParseError {})))
            } else if pool.len() == 0 {
                Err(ErrorModel::EmptyAddressPool)
            } else {
                Ok(RequestModel::SetConfiguration(pool))
            },
        },
    }
}

/// The outcome of a data PUT, given what the body decoded to.
pub open spec fn put_data_outcome(parsed: Option<DocModel>) -> Result<RequestModel, ErrorModel> {
    match parsed {
        None => Err(ErrorModel::MalformedBody(BodyErrorModel::Syntax)),
        Some(doc) => Ok(RequestModel::PutData(doc)),
    }
}

/// The outcome of a PATCH, given what the body decoded to.
pub open spec fn patch_outcome(parsed: Option<DocModel>) -> Result<RequestModel, ErrorModel> {
    match parsed {
        None => Err(ErrorModel::MalformedBody(BodyErrorModel::Syntax)),
        Some(doc) => Ok(RequestModel::PatchData(doc)),
    }
}

/// What a PUT parses to, for every body and path token.
pub open spec fn put_model(body: Seq<u8>, token: Option<Seq<char>>) -> Result<
    RequestModel,
    ErrorModel,
> {
    match token {
        Some(t) => if t != "config"@ {
            Err(ErrorModel::UnrecognizedPath(t))
        } else {
            config_outcome(json_doc(body))
        },
        None => put_data_outcome(json_doc(body)),
    }
}

/// What a PATCH parses to, for every body.
pub open spec fn patch_model(body: Seq<u8>) -> Result<RequestModel, ErrorModel> {
    patch_outcome(json_doc(body))
}

pub open spec fn token_model(token: Option<&&str>) -> Option<Seq<char>> {
    match token {
        None => None,
        Some(t) => Some(t@),
    }
}

/// Character-for-character string equality.
fn str_eq(a: &str, b: &str) -> (r: bool)
    ensures
        r == (a@ == b@),
{
    let na = a.unicode_len();
    let nb = b.unicode_len();
    if na != nb {
        return false;
    }
    let mut idx: usize = 0;
    while idx < na
        invariant
            na == a@.len(),
            nb == b@.len(),
            na == nb,
            0 <= idx <= na,
            forall|q: int| 0 <= q < idx ==> a@[q] == b@[q],
        decreases na - idx,
    {
        let ca = a.get_char(idx);
        let cb = b.get_char(idx);
        if (ca as u32) != (cb as u32) {
            assert(a@[idx as int] != b@[idx as int]);
            return false;
        }
        idx = idx + 1;
    }
    proof {
        assert(a@ =~= b@);
    }
    true
}

/// The model of a configuration extraction result.
pub open spec fn cfg_result_model(r: Result<MmdsConfig, BodyError>) -> Result<
    Seq<Seq<char>>,
    BodyErrorModel,
> {
    match r {
        Ok(c) => Ok(c.pool_model()),
        Err(b) => Err(body_error_model(b)),
    }
}

/// Check a decoded document against the configuration schema and
/// extract the pool strings.
fn config_from_shape(d: &DocShape) -> (r: Result<MmdsConfig, BodyError>)
    ensures
        cfg_result_model(r) == config_check(shape_model(*d)),
{
    let ghost dm = shape_model(*d);
    let entries: &Vec<(String, Option<Vec<Option<String>>>)> = match d {
        DocShape::NotObject => {
            return Err(BodyError::NotAnObject);
        },
        DocShape::Object(es) => es,
    };
    let ghost em = entries@.map(
        |i: int, e: (String, Option<Vec<Option<String>>>)| crate::json::entry_model(e),
    );
    proof {
        assert(dm == Some(em));
    }
    let field = String::from_str("ipv4_address_pool");
    let n = entries.len();
    let mut idx: usize = 0;
    proof {
        assert(em.subrange(0, n as int) =~= em);
    }
    while idx < n
        invariant
            n == entries@.len(),
            0 <= idx <= n,
            field@ == field_name(),
            dm == shape_model(*d),
            dm == Some(em),
            em == entries@.map(
                |i: int, e: (String, Option<Vec<Option<String>>>)| crate::json::entry_model(e),
            ),
            forall|m: int| 0 <= m < idx ==> (#[trigger] em[m]).0 == field_name(),
            first_bad_key(em) == first_bad_key(em.subrange(idx as int, n as int)),
        decreases n - idx,
    {
        let key: &String = &entries[idx].0;
        assert(em[idx as int].0 == key@);
        if !str_eq(key.as_str(), field.as_str()) {
            proof {
                assert(em.subrange(idx as int, n as int)[0] == em[idx as int]);
                assert(first_bad_key(em) == Some(key@));
                assert(config_check(dm) == Err::<Seq<Seq<char>>, BodyErrorModel>(
                    BodyErrorModel::UnknownField(key@),
                ));
            }
            return Err(BodyError::UnknownField(key.clone()));
        }
        proof {
            assert(em.subrange(idx as int, n as int).subrange(1, (n - idx) as int) =~= em.subrange(
                idx + 1,
                n as int,
            ));
            assert(em.subrange(idx as int, n as int)[0] == em[idx as int]);
        }
        idx = idx + 1;
    }
    proof {
        assert(em.subrange(n as int, n as int).len() == 0);
    }
    if n == 0 {
        return Err(BodyError::MissingField);
    }
    let fieldval: &Option<Vec<Option<String>>> = &entries[0].1;
    assert(em[0].1 == crate::json::field_model(entries@[0].1));
    match fieldval {
        None => {
            assert(em[0].1 is None);
            Err(BodyError::NotAStringArray)
        },
        Some(elems) => {
            let ghost elm = elems@.map(|i: int, e: Option<String>| crate::json::elem_model(e));
            proof {
                assert(em[0].1 == Some(elm));
            }
            let ne = elems.len();
            let mut pool: Vec<String> = Vec::new();
            let mut i2: usize = 0;
            while i2 < ne
                invariant
                    ne == elems@.len(),
                    0 <= i2 <= ne,
                    dm == shape_model(*d),
                    dm == Some(em),
                    first_bad_key(em) == None::<Seq<char>>,
                    0 < em.len(),
                    em[0].1 == Some(elm),
                    elm == elems@.map(|i: int, e: Option<String>| crate::json::elem_model(e)),
                    pool@.len() == i2,
                    forall|m: int|
                        0 <= m < i2 ==> ((#[trigger] elm[m]) matches Some(s) && pool@[m]@ == s),
                decreases ne - i2,
            {
                let elem: &Option<String> = &elems[i2];
                assert(elm[i2 as int] == crate::json::elem_model(elems@[i2 as int]));
                match elem {
                    None => {
                        assert(elm[i2 as int] is None);
                        assert(field_strings(elm) is None);
                        return Err(BodyError::NotAStringArray);
                    },
                    Some(s) => {
                        pool.push(s.clone());
                    },
                }
                i2 = i2 + 1;
            }
            let cfg = MmdsConfig { ipv4_address_pool: pool };
            proof {
                assert(forall|m: int| 0 <= m < elm.len() ==> (#[trigger] elm[m]) is Some);
                let mapped = elm.map(
                    |i: int, e: ElemModel|
                        match e {
                            Some(s) => s,
                            None => Seq::<char>::empty(),
                        },
                );
                assert(field_strings(elm) == Some(mapped));
                assert(cfg.pool_model() =~~= mapped);
            }
            Ok(cfg)
        },
    }
}

/// Parse a PUT of the MMDS route.
///
/// A first path token other than the configuration marker `config` is
/// refused. With the marker, the body must satisfy the configuration
/// schema and hold a non-empty pool of valid addresses; without a
/// token, any JSON body is passed through as data.
pub fn parse_put_mmds(body: &Body, first_token: Option<&&str>) -> (r: Result<
    ParsedRequest,
    RequestError,
>)
    ensures
        req_model(r) == put_model(body@, token_model(first_token)),
{
    let config_request: bool = match first_token {
        Some(t) => {
            if !str_eq(*t, "config") {
                return Err(RequestError::UnrecognizedPath(String::from_str(*t)));
            }
            true
        },
        None => false,
    };
    if config_request {
        match json_from_slice(body.raw()) {
            Err(msg) => Err(RequestError::MalformedBody(BodyError::Syntax(msg))),
            Ok(v) => {
                let shape = doc_shape(&v);
                match config_from_shape(&shape) {
                    Err(be) => Err(RequestError::MalformedBody(be)),
                    Ok(cfg) => match cfg.ipv4_addr_pool() {
                        Err(ce) => {
                            proof {
                                assert(ce == Error::IPv4ParseError(AddrParseError {}));
                            }
                            Err(RequestError::InvalidConfig(ce))
                        },
                        Ok(addrs) => {
                            if addrs.len() == 0 {
                                Err(RequestError::EmptyAddressPool)
                            } else {
                                Ok(ParsedRequest::SetConfiguration(cfg))
                            }
                        },
                    },
                }
            },
        }
    } else {
        match json_from_slice(body.raw()) {
            Err(msg) => Err(RequestError::MalformedBody(BodyError::Syntax(msg))),
            Ok(v) => Ok(ParsedRequest::PutData(v)),
        }
    }
}

/// Parse a GET of the MMDS route: always a configuration read.
pub fn parse_get_mmds() -> (r: Result<ParsedRequest, RequestError>)
    ensures
        r matches Ok(p) && p is GetConfiguration,
{
    Ok(ParsedRequest::GetConfiguration)
}

/// Parse a PATCH of the MMDS route: the body replaces nothing
/// structurally, it is merged as data.
pub fn parse_patch_mmds(body: &Body) -> (r: Result<ParsedRequest, RequestError>)
    ensures
        req_model(r) == patch_model(body@),
{
    match json_from_slice(body.raw()) {
        Err(msg) => Err(RequestError::MalformedBody(BodyError::Syntax(msg))),
        Ok(v) => Ok(ParsedRequest::PatchData(v)),
    }
}

} // verus!
