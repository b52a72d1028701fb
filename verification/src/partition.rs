use vstd::prelude::*;
use vstd::string::StringExecFns;

verus! {

/// The partition identifier derived from a client identifier and a server
/// address: the two strings joined by a fixed separator.
///
/// All records of one client session live under this name in the shared
/// store, so that sessions with different identifiers do not collide.
pub open spec fn partition_id(client_id: Seq<char>, server_uri: Seq<char>) -> Seq<char> {
    client_id + ":"@ + server_uri
}

/// Builds the partition identifier for one `open` call.
pub fn partition_name(client_id: &str, server_uri: &str) -> (r: String)
    ensures
        r@ == partition_id(client_id@, server_uri@),
{
    let mut r = client_id.to_owned();
    r.append(":");
    r.append(server_uri);
    r
}

/// Sessions of two clients with different identifiers, opened against the
/// same server address, are filed under different partition names.
pub proof fn lemma_distinct_clients_distinct_partitions(
    c1: Seq<char>,
    c2: Seq<char>,
    uri: Seq<char>,
)
    requires
        c1 != c2,
    ensures
        partition_id(c1, uri) != partition_id(c2, uri),
{
    if partition_id(c1, uri) == partition_id(c2, uri) {
        assert(partition_id(c1, uri).len() == c1.len() + ":"@.len() + uri.len());
        assert(partition_id(c2, uri).len() == c2.len() + ":"@.len() + uri.len());
        assert(c1.len() == c2.len());
        assert(c1 =~= partition_id(c1, uri).subrange(0, c1.len() as int));
        assert(c2 =~= partition_id(c2, uri).subrange(0, c2.len() as int));
    }
}

} // verus!
