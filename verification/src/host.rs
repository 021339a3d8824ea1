//! The names under which this process reports itself.

use vstd::prelude::*;

verus! {

/// The node name reported when none is configured.
pub const UNKNOWN_NODE: &'static str = "UNKNOWN";

/// The port on which the nodes of the cluster listen, as it follows the
/// host in an address.
pub const CLUSTER_PORT: &'static str = ":9042";

/// The parts of the greeting around the two names.
pub const GREETING_HEAD: &'static str =
    "Hello k8s world! I am a simple server running on node ";

pub const GREETING_POD: &'static str = " in pod ";

pub const GREETING_END: &'static str = "\n";

/// `gethostname::gethostname`, read as text with
/// `OsStr::to_string_lossy`: the host name as the system reports it at
/// the time of the call. Nothing is claimed about the name. The outside
/// function panics if the system refuses to tell the name.
#[verifier::external_body]
pub fn get_hostname() -> (name: String) {
    gethostname::gethostname().to_string_lossy().into()
}

/// The name of the node: the configured one, or `UNKNOWN` if none is.
pub fn get_nodename(configured: Option<String>) -> (name: String)
    ensures
        name@ == match configured {
            Some(n) => n@,
            None => UNKNOWN_NODE@,
        },
{
    match configured {
        Some(n) => n,
        None => String::from_str(UNKNOWN_NODE),
    }
}

/// The address of the node on `host`: the host and the cluster's port.
pub fn cassandra_addr(host: &str) -> (address: String)
    ensures
        address@ == host@ + CLUSTER_PORT@,
{
    let mut address = String::from_str(host);
    address.append(CLUSTER_PORT);
    address
}

/// The line with which the server introduces itself.
pub open spec fn greeting_text(nodename: Seq<char>, hostname: Seq<char>) -> Seq<char> {
    GREETING_HEAD@ + nodename + GREETING_POD@ + hostname + GREETING_END@
}

/// The line with which the server introduces itself.
pub fn greeting(nodename: &str, hostname: &str) -> (line: String)
    ensures
        line@ == greeting_text(nodename@, hostname@),
{
    let mut line = String::from_str(GREETING_HEAD);
    line.append(nodename);
    line.append(GREETING_POD);
    line.append(hostname);
    line.append(GREETING_END);
    line
}

} // verus!
