//! The policies of Uniskai's Cloudsitter, as its API returns them, and
//! the addresses of that API.
use vstd::prelude::*;

use crate::resources::opt_string_view;
use crate::text::{
    opt_strings_view, rsplit_once, same_optional_text, same_optional_texts, str_eq,
    to_owned_string,
};
use crate::time::UtcDateTime;

verus! {

/// The host of the API when none is configured.
pub const DEFAULT_API_URL: &'static str = "profisealabs.com";

/// The environment variable of the API key.
pub const API_KEY_ENV_VAR: &'static str = "UNISKAI_API_KEY";

/// The environment variable of the API host.
pub const API_URL_ENV_VAR: &'static str = "UNISKAI_API_URL";

/// The environment variable of the environment ID.
pub const ENV_ID_ENV_VAR: &'static str = "UNISKAI_ENV_ID";

/// The resource types that stand for Kubernetes namespaces.
pub const NAMESPACE_TYPES: [&'static str; 2] = ["kubernetes-namespace", "eks-namespace"];

/// The seconds after which a request to the API is given up.
pub const REQUEST_TIMEOUT_SECS: u64 = 20;

/// The on/off states of a week's periods, Monday first.
pub struct CloudsitterSchedule {
    pub hours: Vec<bool>,
}

/// Where a cloud resource lives: its resource name with each provider.
pub enum Identification {
    AwsIdentification { arn: String, region: String },
    AzureIdentification { rn: String, region: String },
    GcpIdentification { grn: String, region: String },
}

/// The position of the last `/` of a text, -1 when it has none.
pub open spec fn last_slash(s: Seq<char>) -> int
    decreases s.len(),
{
    if s.len() == 0 {
        -1
    } else if s.last() == '/' {
        s.len() - 1
    } else {
        last_slash(s.drop_last())
    }
}

/// What follows the last `/` of a resource name; `None` when it has none.
pub open spec fn name_in(id: Seq<char>) -> Option<Seq<char>> {
    if last_slash(id) < 0 {
        None
    } else {
        Some(id.subrange(last_slash(id) + 1, id.len() as int))
    }
}

proof fn lemma_last_slash_absent(s: Seq<char>)
    ensures
        last_slash(s) < 0 <==> !s.contains('/'),
        -1 <= last_slash(s) < s.len(),
    decreases s.len(),
{
    if s.len() > 0 {
        lemma_last_slash_absent(s.drop_last());
        if s.last() != '/' {
            if s.contains('/') {
                let j = choose|j: int| 0 <= j < s.len() && s[j] == '/';
                assert(s.drop_last()[j] == '/');
            }
            if s.drop_last().contains('/') {
                let j = choose|j: int| 0 <= j < s.len() - 1 && s.drop_last()[j] == '/';
                assert(s[j] == '/');
            }
        } else {
            assert(s[s.len() - 1] == '/');
        }
    }
}

proof fn lemma_last_slash_split(before: Seq<char>, after: Seq<char>)
    requires
        !after.contains('/'),
    ensures
        last_slash(before + seq!['/'] + after) == before.len(),
    decreases after.len(),
{
    let s = before + seq!['/'] + after;
    if after.len() == 0 {
        assert(s.last() == '/');
    } else {
        assert(s.last() == after.last());
        assert(after.last() != '/') by {
            assert(after[after.len() - 1] == after.last());
        }
        assert(!after.drop_last().contains('/')) by {
            if after.drop_last().contains('/') {
                let j = choose|j: int| 0 <= j < after.len() - 1 && after.drop_last()[j] == '/';
                assert(after[j] == '/');
            }
        }
        assert(s.drop_last() =~= before + seq!['/'] + after.drop_last());
        lemma_last_slash_split(before, after.drop_last());
    }
}

/// The view of an optional text.
pub open spec fn opt_str_view(s: Option<&str>) -> Option<Seq<char>> {
    match s {
        Some(t) => Some(t@),
        None => None,
    }
}

impl Identification {
    /// The resource name of the provider.
    pub open spec fn resource_name(&self) -> Seq<char> {
        match self {
            Identification::AwsIdentification { arn, .. } => arn@,
            Identification::AzureIdentification { rn, .. } => rn@,
            Identification::GcpIdentification { grn, .. } => grn@,
        }
    }

    /// The name of the resource: what follows the last `/` of its resource
    /// name, `None` when that has no `/`.
    pub fn name(&self) -> (r: Option<&str>)
        ensures
            opt_str_view(r) == name_in(self.resource_name()),
    {
        let id: &str = match self {
            Identification::AwsIdentification { arn, .. } => arn.as_str(),
            Identification::AzureIdentification { rn, .. } => rn.as_str(),
            Identification::GcpIdentification { grn, .. } => grn.as_str(),
        };
        proof {
            lemma_last_slash_absent(id@);
        }
        match rsplit_once(id, '/') {
            Some((before, name)) => {
                proof {
                    lemma_last_slash_split(before@, name@);
                    assert(id@.subrange(before@.len() as int + 1, id@.len() as int) =~= name@);
                }
                Some(name)
            },
            None => None,
        }
    }
}

/// A resource that a policy schedules.
pub struct CloudsitterResource {
    pub id: String,
    pub ty: String,
    pub identification: Identification,
    pub pause_from: Option<UtcDateTime>,
    pub pause_to: Option<UtcDateTime>,
}

/// A Cloudsitter policy.
pub struct CloudsitterPolicy {
    pub id: i64,
    pub name: String,
    pub schedules: CloudsitterSchedule,
    pub resources: Vec<CloudsitterResource>,
    pub disabled: bool,
    pub timezone: String,
    pub gmt: String,
    pub brake_reason: Option<String>,
    pub broken: bool,
    pub next_state: bool,
    pub emails: Option<Vec<String>>,
}

/// The resource type stands for a Kubernetes namespace.
pub open spec fn is_namespace_type_spec(ty: Seq<char>) -> bool {
    ty == "kubernetes-namespace"@ || ty == "eks-namespace"@
}

/// Whether a resource type stands for a Kubernetes namespace
/// (`NAMESPACE_TYPES.contains(ty)`).
pub fn is_namespace_type(ty: &str) -> (r: bool)
    ensures
        r == is_namespace_type_spec(ty@),
{
    str_eq(ty, "kubernetes-namespace") || str_eq(ty, "eks-namespace")
}

/// The base address of the API on a host: `https://HOST/api`.
pub fn api_base_url(api_url: &str) -> (r: String)
    ensures
        r@ == "https://"@ + api_url@ + "/api"@,
{
    let mut r = to_owned_string("https://");
    r.append(api_url);
    r.append("/api");
    r
}

/// The address of an environment's Cloudsitter policies:
/// `BASE/environments/ENV/cloudsitter/policies`.
pub fn cloudsitter_policies_url(base_url: &str, env_id: &str) -> (r: String)
    ensures
        r@ == base_url@ + "/environments/"@ + env_id@ + "/cloudsitter/policies"@,
{
    let mut r = to_owned_string(base_url);
    r.append("/environments/");
    r.append(env_id);
    r.append("/cloudsitter/policies");
    r
}

/// The authorization header of an API key: `Bearer KEY`.
pub fn bearer_authorization(api_key: &str) -> (r: String)
    ensures
        r@ == "Bearer "@ + api_key@,
{
    let mut r = to_owned_string("Bearer ");
    r.append(api_key);
    r
}

pub enum IdentificationView {
    Aws { arn: Seq<char>, region: Seq<char> },
    Azure { rn: Seq<char>, region: Seq<char> },
    Gcp { grn: Seq<char>, region: Seq<char> },
}

impl View for Identification {
    type V = IdentificationView;

    open spec fn view(&self) -> IdentificationView {
        match self {
            Identification::AwsIdentification { arn, region } => IdentificationView::Aws {
                arn: arn@,
                region: region@,
            },
            Identification::AzureIdentification { rn, region } => IdentificationView::Azure {
                rn: rn@,
                region: region@,
            },
            Identification::GcpIdentification { grn, region } => IdentificationView::Gcp {
                grn: grn@,
                region: region@,
            },
        }
    }
}

pub struct CloudsitterResourceView {
    pub id: Seq<char>,
    pub ty: Seq<char>,
    pub identification: IdentificationView,
    pub pause_from: Option<UtcDateTime>,
    pub pause_to: Option<UtcDateTime>,
}

impl View for CloudsitterResource {
    type V = CloudsitterResourceView;

    open spec fn view(&self) -> CloudsitterResourceView {
        CloudsitterResourceView {
            id: self.id@,
            ty: self.ty@,
            identification: self.identification@,
            pause_from: self.pause_from,
            pause_to: self.pause_to,
        }
    }
}

pub struct CloudsitterPolicyView {
    pub id: i64,
    pub name: Seq<char>,
    pub hours: Seq<bool>,
    pub resources: Seq<CloudsitterResourceView>,
    pub disabled: bool,
    pub timezone: Seq<char>,
    pub gmt: Seq<char>,
    pub brake_reason: Option<Seq<char>>,
    pub broken: bool,
    pub next_state: bool,
    pub emails: Option<Seq<Seq<char>>>,
}

impl View for CloudsitterPolicy {
    type V = CloudsitterPolicyView;

    open spec fn view(&self) -> CloudsitterPolicyView {
        CloudsitterPolicyView {
            id: self.id,
            name: self.name@,
            hours: self.schedules.hours@,
            resources: self.resources@.map_values(|r: CloudsitterResource| r@),
            disabled: self.disabled,
            timezone: self.timezone@,
            gmt: self.gmt@,
            brake_reason: opt_string_view(self.brake_reason),
            broken: self.broken,
            next_state: self.next_state,
            emails: opt_strings_view(self.emails),
        }
    }
}

fn same_identification(a: &Identification, b: &Identification) -> (r: bool)
    ensures
        r == (a@ == b@),
{
    match (a, b) {
        (
            Identification::AwsIdentification { arn: x, region: rx },
            Identification::AwsIdentification { arn: y, region: ry },
        ) => *x == *y && *rx == *ry,
        (
            Identification::AzureIdentification { rn: x, region: rx },
            Identification::AzureIdentification { rn: y, region: ry },
        ) => *x == *y && *rx == *ry,
        (
            Identification::GcpIdentification { grn: x, region: rx },
            Identification::GcpIdentification { grn: y, region: ry },
        ) => *x == *y && *rx == *ry,
        _ => false,
    }
}

fn same_optional_instant(a: &Option<UtcDateTime>, b: &Option<UtcDateTime>) -> (r: bool)
    ensures
        r == (*a == *b),
{
    match (a, b) {
        (Some(x), Some(y)) => *x == *y,
        (None, None) => true,
        _ => false,
    }
}

fn same_resource(a: &CloudsitterResource, b: &CloudsitterResource) -> (r: bool)
    ensures
        r == (a@ == b@),
{
    a.id == b.id && a.ty == b.ty && same_identification(&a.identification, &b.identification)
        && same_optional_instant(&a.pause_from, &b.pause_from) && same_optional_instant(
        &a.pause_to,
        &b.pause_to,
    )
}

fn same_hours(a: &Vec<bool>, b: &Vec<bool>) -> (r: bool)
    ensures
        r == (a@ == b@),
{
    if a.len() != b.len() {
        return false;
    }
    let mut i: usize = 0;
    while i < a.len()
        invariant
            i <= a@.len(),
            a@.len() == b@.len(),
            forall|j: int| 0 <= j < i ==> a@[j] == b@[j],
        decreases a@.len() - i,
    {
        if a[i] != b[i] {
            return false;
        }
        i = i + 1;
    }
    assert(a@ =~= b@);
    true
}

#[verifier::loop_isolation(false)]
fn same_resources(a: &Vec<CloudsitterResource>, b: &Vec<CloudsitterResource>) -> (r: bool)
    ensures
        r == (a@.map_values(|x: CloudsitterResource| x@) == b@.map_values(
            |x: CloudsitterResource| x@,
        )),
{
    let ghost va = a@.map_values(|x: CloudsitterResource| x@);
    let ghost vb = b@.map_values(|x: CloudsitterResource| x@);
    if a.len() != b.len() {
        assert(va.len() != vb.len());
        return false;
    }
    let mut i: usize = 0;
    while i < a.len()
        invariant
            i <= a@.len(),
            forall|j: int| 0 <= j < i ==> #[trigger] va[j] == vb[j],
        decreases a@.len() - i,
    {
        if !same_resource(&a[i], &b[i]) {
            assert(va[i as int] != vb[i as int]);
            return false;
        }
        i = i + 1;
    }
    assert(va =~= vb);
    true
}

impl CloudsitterPolicy {
    /// `==`: every field of the two policies is the same.
    pub fn same_as(&self, other: &CloudsitterPolicy) -> (r: bool)
        ensures
            r == (self@ == other@),
    {
        self.id == other.id && self.name == other.name && same_hours(
            &self.schedules.hours,
            &other.schedules.hours,
        ) && same_resources(&self.resources, &other.resources) && self.disabled
            == other.disabled && self.timezone == other.timezone && self.gmt == other.gmt
            && same_optional_text(&self.brake_reason, &other.brake_reason) && self.broken
            == other.broken && self.next_state == other.next_state && same_optional_texts(
            &self.emails,
            &other.emails,
        )
    }
}

} // verus!
