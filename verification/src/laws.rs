//! Properties of the parser, stated over all inputs and proved once.
//!
//! Each law speaks over the models the parse functions' contracts use:
//! what a body decoded to stands as a document model, so a law about
//! "any valid JSON object of such a shape" is a law about every
//! document model of that shape.

use vstd::prelude::*;
use crate::ipv4::{is_valid_ipv4, AddrParseError};
use crate::json::{DocModel, ElemModel, EntryModel};
use crate::mmds_config::{pool_all_valid, Error};
use crate::request::{
    config_outcome, field_name, field_strings, first_bad_key, patch_model, patch_outcome,
    put_data_outcome, put_model, req_model, BodyErrorModel, ErrorModel, ParsedRequest,
    RequestError, RequestModel,
};

verus! {

/// A configuration PUT whose body decodes to an object holding exactly
/// the pool field, a non-empty array of valid address strings, is
/// accepted as a configuration change carrying that pool, order
/// preserved.
pub proof fn lemma_config_accepted(pool: Seq<Seq<char>>)
    requires
        pool.len() > 0,
        pool_all_valid(pool),
    ensures
        config_outcome(
            Some(Some(seq![(field_name(), Some(pool.map(|i: int, s: Seq<char>| Some(s))))])),
        ) == Ok::<RequestModel, ErrorModel>(RequestModel::SetConfiguration(pool)),
{
    let elems = pool.map(|i: int, s: Seq<char>| Some(s));
    let entries: Seq<EntryModel> = seq![(field_name(), Some(elems))];
    assert(first_bad_key(entries) == None::<Seq<char>>) by {
        assert(entries[0].0 == field_name());
        assert(entries.subrange(1, 1).len() == 0);
        assert(first_bad_key(entries.subrange(1, 1)) == None::<Seq<char>>);
    }
    assert(forall|m: int| 0 <= m < elems.len() ==> (#[trigger] elems[m]) is Some);
    let mapped = elems.map(
        |i: int, e: ElemModel|
            match e {
                Some(s) => s,
                None => Seq::<char>::empty(),
            },
    );
    assert(field_strings(elems) == Some(mapped));
    assert(mapped =~~= pool);
}

/// A configuration PUT whose body decodes to an object holding exactly
/// the pool field with an empty array is rejected as an empty pool --
/// never as a parse error.
pub proof fn lemma_empty_pool_rejected()
    ensures
        config_outcome(Some(Some(seq![(field_name(), Some(Seq::<ElemModel>::empty()))])))
            == Err::<RequestModel, ErrorModel>(ErrorModel::EmptyAddressPool),
{
    let elems = Seq::<ElemModel>::empty();
    let entries: Seq<EntryModel> = seq![(field_name(), Some(elems))];
    assert(first_bad_key(entries) == None::<Seq<char>>) by {
        assert(entries[0].0 == field_name());
        assert(entries.subrange(1, 1).len() == 0);
        assert(first_bad_key(entries.subrange(1, 1)) == None::<Seq<char>>);
    }
    let mapped = elems.map(
        |i: int, e: ElemModel|
            match e {
                Some(s) => s,
                None => Seq::<char>::empty(),
            },
    );
    assert(field_strings(elems) == Some(mapped));
    assert(mapped =~~= Seq::<Seq<char>>::empty());
}

/// A configuration PUT whose pool holds any entry that is not
/// dotted-decimal IPv4 is rejected as an invalid configuration value,
/// whatever the other entries.
pub proof fn lemma_invalid_entry_rejected(pool: Seq<Seq<char>>)
    requires
        exists|m: int| 0 <= m < pool.len() && !is_valid_ipv4(#[trigger] pool[m]),
    ensures
        config_outcome(
            Some(Some(seq![(field_name(), Some(pool.map(|i: int, s: Seq<char>| Some(s))))])),
        ) == Err::<RequestModel, ErrorModel>(
            ErrorModel::InvalidConfig(Error::IPv4ParseError(AddrParseError {})),
        ),
{
    let elems = pool.map(|i: int, s: Seq<char>| Some(s));
    let entries: Seq<EntryModel> = seq![(field_name(), Some(elems))];
    assert(first_bad_key(entries) == None::<Seq<char>>) by {
        assert(entries[0].0 == field_name());
        assert(entries.subrange(1, 1).len() == 0);
        assert(first_bad_key(entries.subrange(1, 1)) == None::<Seq<char>>);
    }
    assert(forall|m: int| 0 <= m < elems.len() ==> (#[trigger] elems[m]) is Some);
    let mapped = elems.map(
        |i: int, e: ElemModel|
            match e {
                Some(s) => s,
                None => Seq::<char>::empty(),
            },
    );
    assert(field_strings(elems) == Some(mapped));
    assert(mapped =~~= pool);
    assert(!pool_all_valid(pool));
}

/// A PUT with the configuration marker token resolves to the
/// configuration outcome of whatever the body decoded to; composed
/// with the laws above, this carries each of them to the full parse.
pub proof fn lemma_put_config_routes(body: Seq<u8>)
    ensures
        put_model(body, Some("config"@)) == config_outcome(crate::json::json_doc(body)),
{
}

/// A PUT with any first path token other than the configuration marker
/// is rejected as an unrecognized path, whatever the body holds.
pub proof fn lemma_unrecognized_path(body: Seq<u8>, token: Seq<char>)
    requires
        token != "config"@,
    ensures
        put_model(body, Some(token)) == Err::<RequestModel, ErrorModel>(
            ErrorModel::UnrecognizedPath(token),
        ),
{
}

/// A configuration PUT whose body decodes to an object with any field
/// that is not the pool field is rejected as malformed, naming the
/// first such key.
pub proof fn lemma_unknown_field_rejected(entries: Seq<EntryModel>, k: Seq<char>)
    requires
        first_bad_key(entries) == Some(k),
    ensures
        config_outcome(Some(Some(entries))) == Err::<RequestModel, ErrorModel>(
            ErrorModel::MalformedBody(BodyErrorModel::UnknownField(k)),
        ),
{
}

/// A PUT without a path token accepts every body that decodes as JSON,
/// passing the document through as data.
pub proof fn lemma_put_data(doc: DocModel)
    ensures
        put_data_outcome(Some(doc)) == Ok::<RequestModel, ErrorModel>(RequestModel::PutData(doc)),
{
}

/// A PATCH accepts every body that decodes as JSON, passing the
/// document through as data, and rejects any other body as malformed.
pub proof fn lemma_patch_data(doc: DocModel)
    ensures
        patch_outcome(Some(doc)) == Ok::<RequestModel, ErrorModel>(RequestModel::PatchData(doc)),
        patch_outcome(None) == Err::<RequestModel, ErrorModel>(
            ErrorModel::MalformedBody(BodyErrorModel::Syntax),
        ),
{
}

/// Parsing a PUT is a pure function of the body and the token: the
/// models of two parses of the same pair are equal.
pub proof fn lemma_put_deterministic(
    r1: Result<ParsedRequest, RequestError>,
    r2: Result<ParsedRequest, RequestError>,
    body: Seq<u8>,
    token: Option<Seq<char>>,
)
    requires
        req_model(r1) == put_model(body, token),
        req_model(r2) == put_model(body, token),
    ensures
        req_model(r1) == req_model(r2),
{
}

/// Parsing a PATCH is a pure function of the body: the models of two
/// parses of the same body are equal.
pub proof fn lemma_patch_deterministic(
    r1: Result<ParsedRequest, RequestError>,
    r2: Result<ParsedRequest, RequestError>,
    body: Seq<u8>,
)
    requires
        req_model(r1) == patch_model(body),
        req_model(r2) == patch_model(body),
    ensures
        req_model(r1) == req_model(r2),
{
}

} // verus!
