//! What can go wrong with a call, by the phase in which it goes wrong.

use vstd::prelude::*;

verus! {

/// The four members that the parameters of an envelope must have.
#[derive(Clone, Copy, Debug, PartialEq, Eq, Structural)]
pub enum Member {
    HttpHeaders,
    PathParams,
    Body,
    Query,
}

/// Why an envelope cannot be read back into a canonical request.
#[derive(Clone, Copy, Debug, PartialEq, Eq, Structural)]
pub enum MalformedEnvelope {
    /// The parameters are not a JSON object.
    ParamsNotObject,
    /// The parameters have no member of this name.
    MissingMember(Member),
    /// The member is there, but it is not an object of strings.
    MistypedMember(Member),
}

impl Member {
    /// The name of the member on the wire.
    pub open spec fn wire_name(self) -> Seq<char> {
        match self {
            Member::HttpHeaders => "http_headers"@,
            Member::PathParams => "path_params"@,
            Member::Body => "body"@,
            Member::Query => "query"@,
        }
    }

    /// The name of the member on the wire. The query parameters travel as
    /// `query`, not under the name of their field.
    pub fn name(self) -> (name: &'static str)
        ensures
            name@ == self.wire_name(),
    {
        match self {
            Member::HttpHeaders => "http_headers",
            Member::PathParams => "path_params",
            Member::Body => "body",
            Member::Query => "query",
        }
    }
}

impl MalformedEnvelope {
    /// The member that is missing or of the wrong type, if it is a member
    /// that is wrong and not the parameters as a whole.
    pub fn member(self) -> (member: Option<Member>)
        ensures
            member == match self {
                MalformedEnvelope::ParamsNotObject => None,
                MalformedEnvelope::MissingMember(named) => Some(named),
                MalformedEnvelope::MistypedMember(named) => Some(named),
            },
    {
        match self {
            MalformedEnvelope::ParamsNotObject => None,
            MalformedEnvelope::MissingMember(named) => Some(named),
            MalformedEnvelope::MistypedMember(named) => Some(named),
        }
    }

    /// What `message` says.
    pub open spec fn spec_message(self) -> Seq<char> {
        match self {
            MalformedEnvelope::ParamsNotObject => "params is not an object"@,
            MalformedEnvelope::MissingMember(named) => "params has no member "@
                + named.wire_name(),
            MalformedEnvelope::MistypedMember(named) => "params member is not an object of strings: "@
                + named.wire_name(),
        }
    }

    /// The error in words, with the name of the member that it is about.
    pub fn message(self) -> (text: String)
        ensures
            text@ == self.spec_message(),
    {
        match self {
            MalformedEnvelope::ParamsNotObject => "params is not an object".to_owned(),
            MalformedEnvelope::MissingMember(named) => "params has no member ".to_owned().concat(
                named.name(),
            ),
            MalformedEnvelope::MistypedMember(named) =>
                "params member is not an object of strings: ".to_owned().concat(named.name()),
        }
    }
}

/// The four names are pairwise different.
pub proof fn lemma_member_names_differ(a: Member, b: Member)
    ensures
        a.wire_name() == b.wire_name() <==> a == b,
{
    reveal_strlit("http_headers");
    reveal_strlit("path_params");
    reveal_strlit("body");
    reveal_strlit("query");
    assert("http_headers"@.len() == 12);
    assert("path_params"@.len() == 11);
    assert("body"@.len() == 4);
    assert("query"@.len() == 5);
}

} // verus!
