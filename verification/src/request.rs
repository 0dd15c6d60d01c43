//! The canonical request, the JSON-RPC 2.0 envelope, and the two mappings
//! between them.
//!
//! The mapping from request to envelope is total. The method is the path with
//! every `/` turned into `.`, and nothing more: a dot in the path stays a dot,
//! a leading slash becomes a leading dot. The way back is partial and strict:
//! it succeeds on an envelope whose parameters are an object with the four
//! members, three of them objects of strings, and names what is wrong with
//! any other. On the way back the path is the method with every `.` turned
//! into `/`, which is the path that went in wherever that path had no dot.

use vstd::prelude::*;
use crate::error::{lemma_member_names_differ, MalformedEnvelope, Member};
use crate::fields::StringMap;
use crate::json::{
    all_strings, empty_members, get_member, insert_member, json_of, member_strings, members_of,
    no_members, null_value, object_to_strings, object_value, string_members, strings_to_object,
    unsigned_value, value_as_object, clone_value, Json, JsonNumber,
};
use crate::text::{replace_all, replace_char};

verus! {

/// The id that every envelope made from a canonical request carries. It is a
/// placeholder: it does not tell one call from another.
pub const PLACEHOLDER_ID: u64 = 1;

/// One inbound call, whatever transport it came by.
#[derive(Debug)]
pub struct JsonRpcRequestStandard {
    /// The logical route, parts separated by `/`. Empty for the root.
    pub path: String,
    /// The headers, keys as they were received.
    pub http_headers: StringMap,
    /// The variables taken from the route.
    pub path_params: StringMap,
    /// The body: any JSON value, `null` where there is none.
    pub body: serde_json::Value,
    /// The query parameters.
    pub query_params: StringMap,
}

/// What a canonical request holds.
pub struct CanonicalRequest {
    pub path: Seq<char>,
    pub http_headers: Map<Seq<char>, Seq<char>>,
    pub path_params: Map<Seq<char>, Seq<char>>,
    pub body: Json,
    pub query_params: Map<Seq<char>, Seq<char>>,
}

/// A JSON-RPC 2.0 request as it goes over the wire.
#[derive(Debug)]
pub struct JsonRpcRequest {
    /// The protocol version, `2.0`.
    pub jsonrpc: String,
    /// The method to call.
    pub method: String,
    /// The parameters of the call.
    pub params: serde_json::Value,
    /// The token by which a reply is matched to its request.
    pub id: serde_json::Value,
}

/// What an envelope holds.
pub struct Envelope {
    pub jsonrpc: Seq<char>,
    pub method: Seq<char>,
    pub params: Json,
    pub id: Json,
}

impl View for JsonRpcRequestStandard {
    type V = CanonicalRequest;

    open spec fn view(&self) -> CanonicalRequest {
        CanonicalRequest {
            path: self.path@,
            http_headers: self.http_headers@,
            path_params: self.path_params@,
            body: json_of(self.body),
            query_params: self.query_params@,
        }
    }
}

impl View for JsonRpcRequest {
    type V = Envelope;

    open spec fn view(&self) -> Envelope {
        Envelope {
            jsonrpc: self.jsonrpc@,
            method: self.method@,
            params: json_of(self.params),
            id: json_of(self.id),
        }
    }
}

/// The request for the root path that carries nothing.
pub open spec fn empty_request() -> CanonicalRequest {
    CanonicalRequest {
        path: Seq::empty(),
        http_headers: Map::empty(),
        path_params: Map::empty(),
        body: Json::Null,
        query_params: Map::empty(),
    }
}

/// The method that a path stands for: the path with `.` for each `/`.
pub open spec fn method_of(path: Seq<char>) -> Seq<char> {
    replace_char(path, '/', '.')
}

/// The path that a method is read back as: the method with `/` for each `.`.
pub open spec fn path_of(method: Seq<char>) -> Seq<char> {
    replace_char(method, '.', '/')
}

/// The parameters of the envelope of a request: an object of exactly four
/// members, the three maps as objects of strings and the body as it is.
pub open spec fn params_of(request: CanonicalRequest) -> Json {
    Json::Object(
        no_members().insert(
            Member::HttpHeaders.wire_name(),
            Json::Object(string_members(request.http_headers)),
        ).insert(
            Member::PathParams.wire_name(),
            Json::Object(string_members(request.path_params)),
        ).insert(Member::Body.wire_name(), request.body).insert(
            Member::Query.wire_name(),
            Json::Object(string_members(request.query_params)),
        ),
    )
}

/// The envelope of a request.
pub open spec fn envelope_of(request: CanonicalRequest) -> Envelope {
    Envelope {
        jsonrpc: "2.0"@,
        method: method_of(request.path),
        params: params_of(request),
        id: Json::Number(JsonNumber::Unsigned(PLACEHOLDER_ID)),
    }
}

/// The map of strings that stands under the name of `member`, or what is
/// wrong with that member.
pub open spec fn strings_under(members: Map<Seq<char>, Json>, member: Member) -> Result<
    Map<Seq<char>, Seq<char>>,
    MalformedEnvelope,
> {
    if !members.contains_key(member.wire_name()) {
        Err(MalformedEnvelope::MissingMember(member))
    } else {
        match members[member.wire_name()] {
            Json::Object(inner) => if all_strings(inner) {
                Ok(member_strings(inner))
            } else {
                Err(MalformedEnvelope::MistypedMember(member))
            },
            _ => Err(MalformedEnvelope::MistypedMember(member)),
        }
    }
}

/// The request that the members of an envelope's parameters and its method
/// are read back as, or the first thing that is wrong with the members, in
/// the order headers, path parameters, body, query.
pub open spec fn canonical_of_members(members: Map<Seq<char>, Json>, method: Seq<char>) -> Result<
    CanonicalRequest,
    MalformedEnvelope,
> {
    match strings_under(members, Member::HttpHeaders) {
        Err(error) => Err(error),
        Ok(http_headers) => match strings_under(members, Member::PathParams) {
            Err(error) => Err(error),
            Ok(path_params) => if !members.contains_key(Member::Body.wire_name()) {
                Err(MalformedEnvelope::MissingMember(Member::Body))
            } else {
                match strings_under(members, Member::Query) {
                    Err(error) => Err(error),
                    Ok(query_params) => Ok(
                        CanonicalRequest {
                            path: path_of(method),
                            http_headers,
                            path_params,
                            body: members[Member::Body.wire_name()],
                            query_params,
                        },
                    ),
                }
            },
        },
    }
}

/// The request that an envelope is read back as, or the first thing that is
/// wrong with the envelope: its parameters as a whole, then their members.
pub open spec fn canonical_of(envelope: Envelope) -> Result<CanonicalRequest, MalformedEnvelope> {
    match envelope.params {
        Json::Object(members) => canonical_of_members(members, envelope.method),
        _ => Err(MalformedEnvelope::ParamsNotObject),
    }
}

/// The parameters of the envelope of a request are an object with the four
/// members and no other.
pub proof fn lemma_params_members(request: CanonicalRequest)
    ensures
        params_of(request) is Object,
        forall|name: Seq<char>|
            params_of(request)->Object_0.contains_key(name) <==> exists|member: Member|
                name == #[trigger] member.wire_name(),
{
}

/// An object of strings is read back as the strings that it was made of.
pub proof fn lemma_strings_round_trip(fields: Map<Seq<char>, Seq<char>>)
    ensures
        all_strings(string_members(fields)),
        member_strings(string_members(fields)) == fields,
{
}

/// Turning every `/` of a path without a dot into `.` and every `.` of the
/// result into `/` gives the path back.
pub proof fn lemma_path_round_trip(path: Seq<char>)
    requires
        !path.contains('.'),
    ensures
        path_of(method_of(path)) == path,
{
    assert forall|i: int| 0 <= i < path.len() implies path_of(method_of(path))[i] == path[i] by {
        assert(path[i] != '.');
    }
}

/// Round trip. The envelope of any request can be read back, and what is read
/// back has the headers, the path parameters, the body and the query
/// parameters of the request; the query parameters make the trip under the
/// name `query`.
pub proof fn lemma_round_trip(request: CanonicalRequest)
    ensures
        canonical_of(envelope_of(request)) is Ok,
        canonical_of(envelope_of(request))->Ok_0.http_headers == request.http_headers,
        canonical_of(envelope_of(request))->Ok_0.path_params == request.path_params,
        canonical_of(envelope_of(request))->Ok_0.body == request.body,
        canonical_of(envelope_of(request))->Ok_0.query_params == request.query_params,
        canonical_of(envelope_of(request))->Ok_0.path == path_of(method_of(request.path)),
{
    lemma_member_names_differ(Member::HttpHeaders, Member::PathParams);
    lemma_member_names_differ(Member::HttpHeaders, Member::Body);
    lemma_member_names_differ(Member::HttpHeaders, Member::Query);
    lemma_member_names_differ(Member::PathParams, Member::Body);
    lemma_member_names_differ(Member::PathParams, Member::Query);
    lemma_member_names_differ(Member::Body, Member::Query);
    lemma_strings_round_trip(request.http_headers);
    lemma_strings_round_trip(request.path_params);
    lemma_strings_round_trip(request.query_params);
}

/// Round trip of a request whose path has no dot: what is read back from its
/// envelope is the request itself, path included.
pub proof fn lemma_round_trip_exact(request: CanonicalRequest)
    requires
        !request.path.contains('.'),
    ensures
        canonical_of(envelope_of(request)) == Ok::<CanonicalRequest, MalformedEnvelope>(request),
{
    lemma_round_trip(request);
    lemma_path_round_trip(request.path);
}

/// Strictness of the way back. An envelope whose parameters are not an
/// object, or are an object without one of the four members, is read back as
/// an error, never as a request.
pub proof fn lemma_reverse_strict(envelope: Envelope, member: Member)
    requires
        envelope.params matches Json::Object(members) ==> !members.contains_key(
            member.wire_name(),
        ),
    ensures
        canonical_of(envelope) is Err,
        !(envelope.params is Object) ==> canonical_of(envelope) == Err::<
            CanonicalRequest,
            MalformedEnvelope,
        >(MalformedEnvelope::ParamsNotObject),
{
}

/// When the way back succeeds: exactly on an envelope whose parameters are an
/// object that has a body and, under each of the other three names, an
/// object of strings.
pub proof fn lemma_reverse_succeeds(envelope: Envelope)
    ensures
        canonical_of(envelope) is Ok <==> (envelope.params matches Json::Object(members)
            && strings_under(members, Member::HttpHeaders) is Ok && strings_under(
            members,
            Member::PathParams,
        ) is Ok && members.contains_key(Member::Body.wire_name()) && strings_under(
            members,
            Member::Query,
        ) is Ok),
{
}

/// The method that `path` stands for.
pub fn path_to_method(path: &str) -> (method: String)
    ensures
        method@ == method_of(path@),
{
    proof {
        reveal_strlit("/");
        reveal_strlit(".");
    }
    replace_all(path, "/", ".")
}

/// The path that `method` is read back as.
pub fn method_to_path(method: &str) -> (path: String)
    ensures
        path@ == path_of(method@),
{
    proof {
        reveal_strlit("/");
        reveal_strlit(".");
    }
    replace_all(method, ".", "/")
}

/// Reads the member of `object` that must be an object of strings.
fn read_strings(object: &serde_json::Map<String, serde_json::Value>, member: Member) -> (fields:
    Result<StringMap, MalformedEnvelope>)
    ensures
        match fields {
            Ok(map) => strings_under(members_of(*object), member) == Ok::<
                Map<Seq<char>, Seq<char>>,
                MalformedEnvelope,
            >(map@),
            Err(error) => strings_under(members_of(*object), member) == Err::<
                Map<Seq<char>, Seq<char>>,
                MalformedEnvelope,
            >(error),
        },
{
    match get_member(object, member.name()) {
        None => Err(MalformedEnvelope::MissingMember(member)),
        Some(value) => match object_to_strings(value) {
            Some(map) => Ok(map),
            None => Err(MalformedEnvelope::MistypedMember(member)),
        },
    }
}

impl Clone for JsonRpcRequestStandard {
    fn clone(&self) -> (copy: Self)
        ensures
            copy@ == self@,
    {
        JsonRpcRequestStandard {
            path: self.path.clone(),
            http_headers: self.http_headers.clone(),
            path_params: self.path_params.clone(),
            body: clone_value(&self.body),
            query_params: self.query_params.clone(),
        }
    }
}

impl Clone for JsonRpcRequest {
    fn clone(&self) -> (copy: Self)
        ensures
            copy@ == self@,
    {
        JsonRpcRequest {
            jsonrpc: self.jsonrpc.clone(),
            method: self.method.clone(),
            params: clone_value(&self.params),
            id: clone_value(&self.id),
        }
    }
}

impl JsonRpcRequestStandard {
    /// A request for the root path with no header, no parameter and no body.
    pub fn new() -> (request: Self)
        ensures
            request@ == empty_request(),
    {
        JsonRpcRequestStandard {
            path: String::new(),
            http_headers: StringMap::new(),
            path_params: StringMap::new(),
            body: null_value(),
            query_params: StringMap::new(),
        }
    }

    /// Sets one path parameter, replacing the value that the key had.
    pub fn set_path_param(&mut self, key: String, value: String)
        ensures
            final(self)@ == (CanonicalRequest {
                path_params: old(self)@.path_params.insert(key@, value@),
                ..old(self)@
            }),
    {
        self.path_params.insert(key, value);
    }

    /// Sets one header, replacing the value that the key had.
    pub fn set_http_header(&mut self, key: String, value: String)
        ensures
            final(self)@ == (CanonicalRequest {
                http_headers: old(self)@.http_headers.insert(key@, value@),
                ..old(self)@
            }),
    {
        self.http_headers.insert(key, value);
    }

    /// Reads an envelope back into a request. Fails on an envelope whose
    /// parameters are not an object, or lack one of the four members, or hold
    /// something other than an object of strings where headers, path
    /// parameters or query are expected; no default is put in place of
    /// anything.
    pub fn from_json_rpc(request: JsonRpcRequest) -> (standard: Result<Self, MalformedEnvelope>)
        ensures
            match standard {
                Ok(read) => canonical_of(request@) == Ok::<CanonicalRequest, MalformedEnvelope>(
                    read@,
                ),
                Err(error) => canonical_of(request@) == Err::<CanonicalRequest, MalformedEnvelope>(
                    error,
                ),
            },
    {
        let object = match value_as_object(&request.params) {
            Some(object) => object,
            None => {
                return Err(MalformedEnvelope::ParamsNotObject);
            },
        };
        let http_headers = match read_strings(object, Member::HttpHeaders) {
            Ok(map) => map,
            Err(error) => {
                return Err(error);
            },
        };
        let path_params = match read_strings(object, Member::PathParams) {
            Ok(map) => map,
            Err(error) => {
                return Err(error);
            },
        };
        let body = match get_member(object, Member::Body.name()) {
            Some(value) => clone_value(value),
            None => {
                return Err(MalformedEnvelope::MissingMember(Member::Body));
            },
        };
        let query_params = match read_strings(object, Member::Query) {
            Ok(map) => map,
            Err(error) => {
                return Err(error);
            },
        };
        Ok(
            JsonRpcRequestStandard {
                path: method_to_path(request.method.as_str()),
                http_headers,
                path_params,
                body,
                query_params,
            },
        )
    }
}

impl JsonRpcRequest {
    /// The envelope of a request. Never fails.
    pub fn from_standard(standard: JsonRpcRequestStandard) -> (request: Self)
        ensures
            request@ == envelope_of(standard@),
    {
        let method = path_to_method(standard.path.as_str());
        let mut members = empty_members();
        insert_member(
            &mut members,
            Member::HttpHeaders.name().to_owned(),
            strings_to_object(&standard.http_headers),
        );
        insert_member(
            &mut members,
            Member::PathParams.name().to_owned(),
            strings_to_object(&standard.path_params),
        );
        insert_member(&mut members, Member::Body.name().to_owned(), standard.body);
        insert_member(
            &mut members,
            Member::Query.name().to_owned(),
            strings_to_object(&standard.query_params),
        );
        JsonRpcRequest {
            jsonrpc: "2.0".to_owned(),
            method,
            params: object_value(members),
            id: unsigned_value(PLACEHOLDER_ID),
        }
    }
}

/// Which value `JsonRpcRequest::from` returns is stated by the function itself,
/// over the content of the two values: an envelope holds JSON values, and no
/// two of them are told apart but by their content.
impl vstd::std_specs::convert::FromSpecImpl<JsonRpcRequestStandard> for JsonRpcRequest {
    open spec fn obeys_from_spec() -> bool {
        false
    }

    open spec fn from_spec(standard: JsonRpcRequestStandard) -> Self {
        arbitrary()
    }
}

impl From<JsonRpcRequestStandard> for JsonRpcRequest {
    /// The envelope of a request. Never fails.
    fn from(standard: JsonRpcRequestStandard) -> (request: Self)
        ensures
            request@ == envelope_of(standard@),
    {
        JsonRpcRequest::from_standard(standard)
    }
}

impl vstd::std_specs::convert::TryFromSpecImpl<JsonRpcRequest> for JsonRpcRequestStandard {
    open spec fn obeys_try_from_spec() -> bool {
        false
    }

    open spec fn try_from_spec(request: JsonRpcRequest) -> Result<Self, MalformedEnvelope> {
        arbitrary()
    }
}

impl TryFrom<JsonRpcRequest> for JsonRpcRequestStandard {
    type Error = MalformedEnvelope;

    /// Reads an envelope back into a request, or says what is wrong with it.
    fn try_from(request: JsonRpcRequest) -> (standard: Result<Self, MalformedEnvelope>)
        ensures
            match standard {
                Ok(read) => canonical_of(request@) == Ok::<CanonicalRequest, MalformedEnvelope>(
                    read@,
                ),
                Err(error) => canonical_of(request@) == Err::<CanonicalRequest, MalformedEnvelope>(
                    error,
                ),
            },
    {
        JsonRpcRequestStandard::from_json_rpc(request)
    }
}

} // verus!
