//! The desired-state model: one record per proxy listener the panel should
//! expose.

use vstd::prelude::*;

verus! {

/// A desired proxy listener. The structured blobs (`allocate`, `settings`,
/// `stream_settings`, `sniffing`) are carried verbatim as stored text; the
/// timestamps are epoch seconds.
#[derive(Debug, Clone)]
pub struct Inbound {
    pub id: String,
    pub remark: String,
    pub protocol: String,
    pub port: i32,
    pub enable: bool,
    pub tag: Option<String>,
    pub listen: Option<String>,
    pub allocate: Option<String>,
    pub settings: Option<String>,
    pub stream_settings: Option<String>,
    pub sniffing: Option<String>,
    pub up: i64,
    pub down: i64,
    pub total: i64,
    pub expiry: i64,
    pub created_at: Option<i64>,
    pub updated_at: Option<i64>,
}

/// A request to delete one listener by id.
#[derive(Debug, Clone)]
pub struct DeleteInboundRequest {
    pub id: String,
}

/// The routing label an inbound is known by: its own tag, or
/// `"inbound-" + id` when it has none.
pub open spec fn spec_effective_tag(tag: Option<Seq<char>>, id: Seq<char>) -> Seq<char> {
    match tag {
        Some(t) => t,
        None => "inbound-"@ + id,
    }
}

impl Inbound {
    /// The routing label of this inbound.
    pub open spec fn spec_tag(&self) -> Seq<char> {
        spec_effective_tag(
            match self.tag {
                Some(t) => Some(t@),
                None => None,
            },
            self.id@,
        )
    }

    /// Computes the routing label, as `spec_tag` says.
    pub fn effective_tag(&self) -> (r: String)
        ensures
            r@ == self.spec_tag(),
    {
        match &self.tag {
            Some(t) => t.clone(),
            None => {
                let mut s = String::from_str("inbound-");
                s.append(self.id.as_str());
                s
            },
        }
    }
}

/// An inbound that lacks an explicit tag is known by `"inbound-" + id`.
pub proof fn lemma_default_tag(ib: Inbound)
    requires
        ib.tag is None,
    ensures
        ib.spec_tag() == "inbound-"@ + ib.id@,
{
}

} // verus!
