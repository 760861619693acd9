//! Data types describing cluster resources, and the one piece of
//! cluster logic that is pure: deciding a node's readiness from its
//! reported conditions.
//!
//! Talking to the cluster is client-library work done by an outer
//! layer; these are the plain values it hands to the rest of the
//! application.

use vstd::prelude::*;
use crate::text::str_eq;
use crate::text::string_from_chars;

verus! {

/// Status of one container inside a pod.
pub struct ContainerStatus {
    pub name: String,
    pub ready: bool,
    pub restart_count: i32,
    pub image: String,
}

/// One pod as the cluster lists it. `labels` holds the pod's label
/// pairs in the order the listing supplied them.
pub struct PodInfo {
    pub name: String,
    pub namespace: String,
    pub status: String,
    pub node: Option<String>,
    pub containers: Vec<ContainerStatus>,
    pub age: String,
    pub labels: Vec<(String, String)>,
}

/// One service as the cluster lists it.
pub struct ServiceInfo {
    pub name: String,
    pub namespace: String,
    pub service_type: String,
    pub cluster_ip: Option<String>,
    pub external_ip: Option<String>,
    pub ports: Vec<String>,
}

/// One deployment as the cluster lists it.
pub struct DeploymentInfo {
    pub name: String,
    pub namespace: String,
    pub ready_replicas: i32,
    pub replicas: i32,
    pub available_replicas: i32,
    pub age: String,
}

/// One node as the cluster lists it.
pub struct NodeInfo {
    pub name: String,
    pub status: String,
    pub role: String,
    pub version: String,
    pub os: String,
    pub kernel_version: String,
}

/// The character of one decimal digit.
pub open spec fn digit_of(d: int) -> char {
    if d == 0 {
        '0'
    } else if d == 1 {
        '1'
    } else if d == 2 {
        '2'
    } else if d == 3 {
        '3'
    } else if d == 4 {
        '4'
    } else if d == 5 {
        '5'
    } else if d == 6 {
        '6'
    } else if d == 7 {
        '7'
    } else if d == 8 {
        '8'
    } else {
        '9'
    }
}

/// The decimal rendering of a non-negative number, most significant
/// digit first.
pub open spec fn dec_rep(n: int) -> Seq<char>
    decreases n,
{
    if n < 10 {
        seq![digit_of(n)]
    } else {
        dec_rep(n / 10).push(digit_of(n % 10))
    }
}

/// How an age of `seconds` seconds is displayed: whole days, else
/// whole hours, else whole minutes, else seconds, each with its unit
/// letter.
pub open spec fn age_spec(seconds: int) -> Seq<char> {
    if seconds >= 86400 {
        dec_rep(seconds / 86400) + seq!['d']
    } else if seconds >= 3600 {
        dec_rep(seconds / 3600) + seq!['h']
    } else if seconds >= 60 {
        dec_rep(seconds / 60) + seq!['m']
    } else {
        dec_rep(seconds) + seq!['s']
    }
}

/// The character of one decimal digit.
fn digit_char(d: u64) -> (r: char)
    requires
        d < 10,
    ensures
        r == digit_of(d as int),
{
    match d {
        0 => '0',
        1 => '1',
        2 => '2',
        3 => '3',
        4 => '4',
        5 => '5',
        6 => '6',
        7 => '7',
        8 => '8',
        _ => '9',
    }
}

/// Appends the decimal rendering of `n`.
fn push_decimal(n: u64, out: &mut Vec<char>)
    ensures
        final(out)@ == old(out)@ + dec_rep(n as int),
    decreases n,
{
    if n >= 10 {
        push_decimal(n / 10, out);
    }
    let ghost before = out@;
    out.push(digit_char(n % 10));
    proof {
        if n < 10 {
            assert(out@ =~= before + seq![digit_of(n as int)]);
        } else {
            assert(out@ =~= old(out)@ + dec_rep(n as int / 10).push(digit_of(n as int % 10)));
        }
    }
}

/// Renders a resource age for display: whole days when at least one
/// day old, else whole hours, else whole minutes, else seconds, each
/// with its unit letter.
pub fn format_age(seconds: u64) -> (r: String)
    ensures
        r@ == age_spec(seconds as int),
{
    let mut chars: Vec<char> = Vec::new();
    if seconds >= 86400 {
        push_decimal(seconds / 86400, &mut chars);
        chars.push('d');
        proof {
            assert(chars@ =~= age_spec(seconds as int));
        }
    } else if seconds >= 3600 {
        push_decimal(seconds / 3600, &mut chars);
        chars.push('h');
        proof {
            assert(chars@ =~= age_spec(seconds as int));
        }
    } else if seconds >= 60 {
        push_decimal(seconds / 60, &mut chars);
        chars.push('m');
        proof {
            assert(chars@ =~= age_spec(seconds as int));
        }
    } else {
        push_decimal(seconds, &mut chars);
        chars.push('s');
        proof {
            assert(chars@ =~= age_spec(seconds as int));
        }
    }
    string_from_chars(chars.as_slice())
}

/// Whether the condition pairs report a ready node: some condition has
/// type `Ready` with status `True`.
pub open spec fn node_ready(conditions: Seq<(Seq<char>, Seq<char>)>) -> bool {
    exists|i: int|
        0 <= i < conditions.len() && (#[trigger] conditions[i]).0 == "Ready"@ && conditions[i].1
            == "True"@
}

/// Decides a node's readiness from its condition pairs, each given as
/// (condition type, condition status): `Ready` when some condition of
/// type `Ready` has status `True`, `NotReady` otherwise.
pub fn get_node_status(conditions: &Vec<(String, String)>) -> (r: String)
    ensures
        r@ == if node_ready(conditions@.map_values(|c: (String, String)| (c.0@, c.1@))) {
            "Ready"@
        } else {
            "NotReady"@
        },
{
    let ghost model = conditions@.map_values(|c: (String, String)| (c.0@, c.1@));
    let mut i: usize = 0;
    while i < conditions.len()
        invariant
            i <= conditions.len(),
            model == conditions@.map_values(|c: (String, String)| (c.0@, c.1@)),
            forall|j: int|
                0 <= j < i ==> !((#[trigger] model[j]).0 == "Ready"@ && model[j].1 == "True"@),
        decreases conditions.len() - i,
    {
        if str_eq(conditions[i].0.as_str(), "Ready") && str_eq(conditions[i].1.as_str(), "True") {
            proof {
                assert(model[i as int].0 == "Ready"@ && model[i as int].1 == "True"@);
            }
            return "Ready".to_owned();
        }
        i = i + 1;
    }
    proof {
        assert(!node_ready(model));
    }
    "NotReady".to_owned()
}

} // verus!
