//! The `SchedulePolicy` resource: which namespaces a policy selects, its
//! weekly schedule, the assignments that override the schedule for a
//! while, and how a Cloudsitter policy becomes one.
use vstd::prelude::*;

use crate::error::{Error, ErrorView};
use crate::resources::{namespace_type, opt_string_view, ObjectMeta};
use crate::string_map::StringMap;
use crate::text::{
    opt_strings_view, same_optional_text, same_optional_texts, same_texts,
    ascii_lowercase, eq_ignore_ascii_case, first_index, first_index_of, join, parse_i32,
    parse_i32_spec, seq_join, starts_with, string_views,
};
use crate::time::{
    shifted_naive, tz_name_known, tz_offset_seconds, FixedOffset, NaiveDateTime, TimeZone,
    UtcDateTime,
};
use vstd::string::*;
use crate::uniskai_sdk::{
    is_namespace_type, is_namespace_type_spec, name_in, CloudsitterPolicy, CloudsitterResource,
};
use crate::work_time::{
    describes_grid, grid_layout, grid_work_times, work_time_views, work_times_from_grid, WorkTimeView,
};
pub use crate::work_time::{Schedule, WorkTime};

verus! {

/// The finalizer that the controller puts on each policy.
pub const POLICY_FINALIZER: &'static str = "schedulepolicies.api.profisealabs.com";

/// The format of the `from` and `to` times of an assignment.
pub const DATE_TIME_FORMAT: &'static str = "%Y-%m-%dT%H:%M:%S";

/// The operator of a label selector requirement.
#[derive(Clone, Copy, Debug, PartialEq, Eq, Structural)]
pub enum RequirementOperator {
    In,
    NotIn,
    Exists,
    DoesNotExist,
}

impl RequirementOperator {
    /// The keyword of the operator in a label selector.
    pub open spec fn keyword(self) -> Seq<char> {
        match self {
            RequirementOperator::In => "in"@,
            RequirementOperator::NotIn => "notin"@,
            RequirementOperator::Exists => "exists"@,
            RequirementOperator::DoesNotExist => "doesnotexist"@,
        }
    }

    /// The keyword of the operator in a label selector.
    pub fn as_str(&self) -> (r: &'static str)
        ensures
            r@ == self.keyword(),
    {
        match self {
            RequirementOperator::In => "in",
            RequirementOperator::NotIn => "notin",
            RequirementOperator::Exists => "exists",
            RequirementOperator::DoesNotExist => "doesnotexist",
        }
    }

    /// The operator as serde_json writes it: its keyword as a JSON string,
    /// in double quotes.
    pub fn to_string(&self) -> (r: String)
        ensures
            r@ == seq!['"'] + self.keyword() + seq!['"'],
    {
        let mut r = "\"".to_owned();
        r.append(self.as_str());
        r.append("\"");
        proof {
            reveal_strlit("\"");
        }
        r
    }
}

/// A requirement on a label: the operator relates the key and the values.
pub struct LabelSelectorRequirement {
    pub key: String,
    pub operator: RequirementOperator,
    pub values: Option<Vec<String>>,
}

pub struct LabelSelectorRequirementView {
    pub key: Seq<char>,
    pub operator: RequirementOperator,
    pub values: Option<Seq<Seq<char>>>,
}

impl View for LabelSelectorRequirement {
    type V = LabelSelectorRequirementView;

    open spec fn view(&self) -> LabelSelectorRequirementView {
        LabelSelectorRequirementView {
            key: self.key@,
            operator: self.operator,
            values: opt_strings_view(self.values),
        }
    }
}

/// The requirement in the syntax of a Kubernetes label selector: `key` for
/// `Exists`, `!key` for `DoesNotExist`, and `key in (v1,v2)` or
/// `key notin (v1,v2)`, where the list is left out when there are no values.
pub open spec fn label_selector_text(req: LabelSelectorRequirementView) -> Seq<char> {
    match req.operator {
        RequirementOperator::Exists => req.key,
        RequirementOperator::DoesNotExist => seq!['!'] + req.key,
        _ => req.key + seq![' '] + req.operator.keyword() + match req.values {
            Some(vs) => " ("@ + seq_join(vs, ","@) + seq![')'],
            None => Seq::empty(),
        },
    }
}

impl LabelSelectorRequirement {
    /// The requirement in the syntax of a label selector.
    pub fn to_label_selector(&self) -> (r: String)
        ensures
            r@ == label_selector_text(self@),
    {
        let mut selector = String::new();
        match self.operator {
            RequirementOperator::Exists => {
                selector.append(self.key.as_str());
                assert(selector@ =~= self.key@);
            },
            RequirementOperator::DoesNotExist => {
                selector.append("!");
                selector.append(self.key.as_str());
                proof {
                    reveal_strlit("!");
                }
                assert(selector@ =~= seq!['!'] + self.key@);
            },
            RequirementOperator::In | RequirementOperator::NotIn => {
                selector.append(self.key.as_str());
                selector.append(" ");
                selector.append(self.operator.as_str());
                proof {
                    reveal_strlit(" ");
                }
                let ghost head = self.key@ + seq![' '] + self.operator.keyword();
                assert(selector@ =~= head);
                match &self.values {
                    Some(values) => {
                        selector.append(" (");
                        let joined = join(values, ",");
                        selector.append(joined.as_str());
                        selector.append(")");
                        proof {
                            reveal_strlit(")");
                        }
                        assert(selector@ =~= head + (" ("@ + seq_join(
                            string_views(values@),
                            ","@,
                        ) + seq![')']));
                    },
                    None => {
                        assert(selector@ =~= head + Seq::<char>::empty());
                    },
                }
            },
        }
        selector
    }
}

/// How a policy selects its namespaces.
pub enum NamespaceSelector {
    /// Regular expressions of namespace names; a namespace that matches any
    /// of them is selected.
    MatchNames(Vec<String>),
    /// Labels that a namespace must all carry with these values.
    MatchLabels(StringMap),
    /// Label selector requirements that a namespace must all meet.
    MatchExpressions(Vec<LabelSelectorRequirement>),
}

pub enum NamespaceSelectorView {
    MatchNames(Seq<Seq<char>>),
    MatchLabels(Map<Seq<char>, Seq<char>>),
    MatchExpressions(Seq<LabelSelectorRequirementView>),
}

impl View for NamespaceSelector {
    type V = NamespaceSelectorView;

    open spec fn view(&self) -> NamespaceSelectorView {
        match self {
            NamespaceSelector::MatchNames(names) => NamespaceSelectorView::MatchNames(
                string_views(names@),
            ),
            NamespaceSelector::MatchLabels(labels) => NamespaceSelectorView::MatchLabels(labels@),
            NamespaceSelector::MatchExpressions(exprs) => NamespaceSelectorView::MatchExpressions(
                exprs@.map_values(|e: LabelSelectorRequirement| e@),
            ),
        }
    }
}

/// What an assignment asks of the resources it holds for.
#[derive(Clone, Copy, Debug, PartialEq, Eq, Structural)]
pub enum AssignmentType {
    /// Leave them alone.
    Skip,
    /// Keep them awake.
    Work,
    /// Keep them asleep.
    Sleep,
}

/// The API version of a namespace, the default of a reference.
pub fn v1() -> (r: String)
    ensures
        r@ == "v1"@,
{
    namespace_type().api_version
}

/// The kind of a namespace, the default of a reference.
pub fn namespace() -> (r: String)
    ensures
        r@ == "Namespace"@,
{
    namespace_type().kind
}

/// A reference to a Kubernetes object.
pub struct ResourceReference {
    pub api_version: String,
    pub kind: String,
    pub name: String,
    pub namespace: Option<String>,
}

pub struct ResourceReferenceView {
    pub api_version: Seq<char>,
    pub kind: Seq<char>,
    pub name: Seq<char>,
    pub namespace: Option<Seq<char>>,
}

impl View for ResourceReference {
    type V = ResourceReferenceView;

    open spec fn view(&self) -> ResourceReferenceView {
        ResourceReferenceView {
            api_version: self.api_version@,
            kind: self.kind@,
            name: self.name@,
            namespace: opt_string_view(self.namespace),
        }
    }
}

/// The reference to the namespace of that name.
pub open spec fn namespace_reference(name: Seq<char>) -> ResourceReferenceView {
    ResourceReferenceView { api_version: "v1"@, kind: "Namespace"@, name, namespace: None }
}

/// Two references name the same object: kind and API version equal up to
/// ASCII case, name and namespace equal.
pub open spec fn references_match(a: ResourceReferenceView, b: ResourceReferenceView) -> bool {
    &&& ascii_lowercase(a.kind) == ascii_lowercase(b.kind)
    &&& ascii_lowercase(a.api_version) == ascii_lowercase(b.api_version)
    &&& a.name == b.name
    &&& a.namespace == b.namespace
}

impl ResourceReference {
    /// The reference to a namespace.
    pub fn new_namespace(name: &str) -> (r: ResourceReference)
        ensures
            r@ == namespace_reference(name@),
    {
        ResourceReference {
            api_version: v1(),
            kind: namespace(),
            name: name.to_owned(),
            namespace: None,
        }
    }

    /// Whether the two references name the same object.
    pub fn matches(&self, other: &ResourceReference) -> (r: bool)
        ensures
            r == references_match(self@, other@),
    {
        eq_ignore_ascii_case(self.kind.as_str(), other.kind.as_str()) && eq_ignore_ascii_case(
            self.api_version.as_str(),
            other.api_version.as_str(),
        ) && self.name == other.name && same_optional_text(&self.namespace, &other.namespace)
    }
}

/// The resources that an assignment holds for.
pub enum ResourceFilter {
    /// The resources that match any of these references.
    MatchResources(Vec<ResourceReference>),
}

pub enum ResourceFilterView {
    MatchResources(Seq<ResourceReferenceView>),
}

impl View for ResourceFilter {
    type V = ResourceFilterView;

    open spec fn view(&self) -> ResourceFilterView {
        match self {
            ResourceFilter::MatchResources(refs) => ResourceFilterView::MatchResources(
                refs@.map_values(|r: ResourceReference| r@),
            ),
        }
    }
}

/// An override of the schedule: from `from` to `to` (both included, either
/// open), the resources of the filter (all, without one) get `ty`.
pub struct Assignment {
    pub ty: AssignmentType,
    pub from: Option<NaiveDateTime>,
    pub to: Option<NaiveDateTime>,
    pub resource_filter: Option<ResourceFilter>,
}

pub struct AssignmentView {
    pub ty: AssignmentType,
    pub from: Option<NaiveDateTime>,
    pub to: Option<NaiveDateTime>,
    pub resource_filter: Option<ResourceFilterView>,
}

impl View for Assignment {
    type V = AssignmentView;

    open spec fn view(&self) -> AssignmentView {
        AssignmentView {
            ty: self.ty,
            from: self.from,
            to: self.to,
            resource_filter: match self.resource_filter {
                Some(f) => Some(f@),
                None => None,
            },
        }
    }
}

/// The moment lies within the bounds of the assignment.
pub open spec fn assignment_active(a: AssignmentView, t: NaiveDateTime) -> bool {
    &&& (a.from matches Some(from) ==> from.le(t))
    &&& (a.to matches Some(to) ==> t.le(to))
}

impl Assignment {
    /// Whether the assignment holds at the moment.
    pub fn is_active_at(&self, timestamp: &NaiveDateTime) -> (r: bool)
        ensures
            r == assignment_active(self@, *timestamp),
    {
        let from_condition = match &self.from {
            Some(from_time) => from_time.is_before_or_at(timestamp),
            None => true,
        };
        let to_condition = match &self.to {
            Some(to_time) => timestamp.is_before_or_at(to_time),
            None => true,
        };
        from_condition && to_condition
    }
}

/// What a `SchedulePolicy` asks for: a schedule for the namespaces that the
/// selector picks, unless it is suspended.
pub struct SchedulePolicySpec {
    pub title: String,
    pub suspend: bool,
    pub namespace_selector: NamespaceSelector,
    pub schedule: Schedule,
    pub assignments: Option<Vec<Assignment>>,
    pub time_zone: Option<String>,
}

pub struct SchedulePolicySpecView {
    pub title: Seq<char>,
    pub suspend: bool,
    pub namespace_selector: NamespaceSelectorView,
    pub schedule: Seq<WorkTimeView>,
    pub assignments: Option<Seq<AssignmentView>>,
    pub time_zone: Option<Seq<char>>,
}

/// The views of an optional list of assignments.
pub open spec fn opt_assignments_view(a: Option<Vec<Assignment>>) -> Option<Seq<AssignmentView>> {
    match a {
        Some(v) => Some(v@.map_values(|x: Assignment| x@)),
        None => None,
    }
}

impl View for SchedulePolicySpec {
    type V = SchedulePolicySpecView;

    open spec fn view(&self) -> SchedulePolicySpecView {
        SchedulePolicySpecView {
            title: self.title@,
            suspend: self.suspend,
            namespace_selector: self.namespace_selector@,
            schedule: self.schedule@,
            assignments: opt_assignments_view(self.assignments),
            time_zone: opt_string_view(self.time_zone),
        }
    }
}

/// The status of a `SchedulePolicy`: whether it was suspended when last
/// reconciled.
#[derive(Clone, Copy, Debug, PartialEq, Eq, Structural)]
pub struct SchedulePolicyStatus {
    pub suspended: bool,
}

/// The `SchedulePolicy` resource.
pub struct SchedulePolicy {
    pub metadata: ObjectMeta,
    pub spec: SchedulePolicySpec,
    pub status: Option<SchedulePolicyStatus>,
}

impl SchedulePolicy {
    /// Whether the status says that the policy was suspended.
    pub fn was_suspended(&self) -> (r: bool)
        ensures
            r == (self.status matches Some(s) && s.suspended),
    {
        match &self.status {
            Some(s) => s.suspended,
            None => false,
        }
    }
}

/// The offset names UTC itself: `Z`, `UTC` or `GMT`, in any case.
pub open spec fn is_utc_name(s: Seq<char>) -> bool {
    ||| ascii_lowercase(s) == ascii_lowercase("Z"@)
    ||| ascii_lowercase(s) == ascii_lowercase("UTC"@)
    ||| ascii_lowercase(s) == ascii_lowercase("GMT"@)
}

/// The offset without a leading `UTC` or `GMT`.
pub open spec fn without_utc_prefix(s: Seq<char>) -> Seq<char> {
    if "UTC"@.is_prefix_of(s) || "GMT"@.is_prefix_of(s) {
        s.subrange(3, s.len() as int)
    } else {
        s
    }
}

/// The offset is west of UTC: a `-` follows the prefix.
pub open spec fn offset_is_negative(s: Seq<char>) -> bool {
    let t = without_utc_prefix(s);
    t.len() > 0 && t[0] == '-'
}

/// The offset without prefix and sign.
pub open spec fn offset_digits(s: Seq<char>) -> Seq<char> {
    let t = without_utc_prefix(s);
    if t.len() > 0 && (t[0] == '-' || t[0] == '+') {
        t.drop_first()
    } else {
        t
    }
}

/// The hours of the offset: what precedes the first `:`.
pub open spec fn offset_hours_text(s: Seq<char>) -> Seq<char> {
    let b = offset_digits(s);
    b.subrange(0, first_index(b, ':'))
}

/// The minutes of the offset: what lies between the first and the second
/// `:`, or `0` without a `:`.
pub open spec fn offset_minutes_text(s: Seq<char>) -> Seq<char> {
    let b = offset_digits(s);
    let p = first_index(b, ':');
    if p < b.len() {
        let rest = b.subrange(p + 1, b.len() as int);
        rest.subrange(0, first_index(rest, ':'))
    } else {
        "0"@
    }
}

/// The hours and minutes of the offset, when both are `i32` numbers.
pub open spec fn offset_numbers(s: Seq<char>) -> Option<(int, int)> {
    match (parse_i32_spec(offset_hours_text(s)), parse_i32_spec(offset_minutes_text(s))) {
        (Some(h), Some(m)) => Some((h as int, m as int)),
        _ => None,
    }
}

/// The seconds of the offset, computed in `i32`, do not overflow.
pub open spec fn fixed_offset_fits(s: Seq<char>) -> bool {
    is_utc_name(s) || match offset_numbers(s) {
        Some((h, m)) => {
            &&& i32::MIN <= h * 3600 <= i32::MAX
            &&& i32::MIN <= m * 60 <= i32::MAX
            &&& i32::MIN <= h * 3600 + m * 60 <= i32::MAX
            &&& offset_is_negative(s) ==> h * 3600 + m * 60 != i32::MIN
        },
        None => true,
    }
}

/// The seconds east of UTC of an offset `[UTC|GMT][+|-]H[:M]`, or of a
/// name of UTC; `None` when it is not of that form or not within a day.
pub open spec fn fixed_offset_seconds(s: Seq<char>) -> Option<int> {
    if is_utc_name(s) {
        Some(0)
    } else {
        match offset_numbers(s) {
            Some((h, m)) => {
                let t = h * 3600 + m * 60;
                let total = if offset_is_negative(s) {
                    -t
                } else {
                    t
                };
                if -86400 < total < 86400 {
                    Some(total)
                } else {
                    None
                }
            },
            None => None,
        }
    }
}

/// The seconds of an optional fixed offset.
pub open spec fn offset_seconds_view(o: Option<FixedOffset>) -> Option<int> {
    match o {
        Some(o) => Some(o.local_minus_utc as int),
        None => None,
    }
}

/// Whether the offset text can be checked without overflow (see
/// `fixed_offset_fits`).
pub fn fixed_offset_fits_exec(offset: &str) -> (r: bool)
    ensures
        r == fixed_offset_fits(offset@),
{
    if eq_ignore_ascii_case(offset, "Z") || eq_ignore_ascii_case(offset, "UTC")
        || eq_ignore_ascii_case(offset, "GMT") {
        return true;
    }
    match offset_parts(offset) {
        Some((_, hours, minutes)) => {
            let h = hours as i64 * 3600;
            let m = minutes as i64 * 60;
            let t = h + m;
            let min: i64 = i32::MIN as i64;
            let max: i64 = i32::MAX as i64;
            min <= h && h <= max && min <= m && m <= max && min <= t && t <= max && (
            !offset_is_negative_exec(offset) || t != min)
        },
        None => true,
    }
}

fn without_utc_prefix_exec(offset: &str) -> (r: &str)
    ensures
        r@ == without_utc_prefix(offset@),
{
    if starts_with(offset, "UTC") || starts_with(offset, "GMT") {
        proof {
            reveal_strlit("UTC");
            reveal_strlit("GMT");
        }
        offset.substring_char(3, offset.unicode_len())
    } else {
        offset
    }
}

fn offset_is_negative_exec(offset: &str) -> (r: bool)
    ensures
        r == offset_is_negative(offset@),
{
    let rest = without_utc_prefix_exec(offset);
    rest.unicode_len() > 0 && rest.get_char(0) == '-'
}

/// The sign, hours and minutes of an offset text, when both numbers parse.
fn offset_parts(offset: &str) -> (r: Option<(bool, i32, i32)>)
    ensures
        r matches Some((neg, h, m)) ==> neg == offset_is_negative(offset@) && offset_numbers(
            offset@,
        ) == Some((h as int, m as int)),
        r is None ==> offset_numbers(offset@) is None,
{
    let rest = without_utc_prefix_exec(offset);
    let n = rest.unicode_len();
    let is_negative = n > 0 && rest.get_char(0) == '-';
    let body: &str = if n > 0 && (rest.get_char(0) == '-' || rest.get_char(0) == '+') {
        rest.substring_char(1, n)
    } else {
        rest
    };
    assert(body@ =~= offset_digits(offset@));
    let p = first_index_of(body, ':');
    let hours = match parse_i32(body.substring_char(0, p)) {
        Some(h) => h,
        None => return None,
    };
    let bn = body.unicode_len();
    let minutes = if p < bn {
        let after = body.substring_char(p + 1, bn);
        let q = first_index_of(after, ':');
        parse_i32(after.substring_char(0, q))
    } else {
        parse_i32("0")
    };
    match minutes {
        Some(m) => Some((is_negative, hours, m)),
        None => None,
    }
}

/// A fixed offset `[UTC|GMT][+|-]H[:M]` or a name of UTC; `None` when the
/// text is not of that form or the offset is not within a day.
pub fn parse_fixed_offset(offset: &str) -> (r: Option<FixedOffset>)
    requires
        fixed_offset_fits(offset@),
    ensures
        offset_seconds_view(r) == fixed_offset_seconds(offset@),
{
    if eq_ignore_ascii_case(offset, "Z") || eq_ignore_ascii_case(offset, "UTC")
        || eq_ignore_ascii_case(offset, "GMT") {
        return FixedOffset::east_opt(0);
    }
    let (is_negative, hours, minutes) = match offset_parts(offset) {
        Some(parts) => parts,
        None => return None,
    };
    let mut total_seconds = hours * 3600 + minutes * 60;
    if is_negative {
        total_seconds = -total_seconds;
    }
    FixedOffset::east_opt(total_seconds)
}

/// chrono-tz's message for a name it does not know.
pub open spec fn unknown_zone_message(tz: Seq<char>) -> Seq<char> {
    seq!['\''] + tz + "' is not a valid timezone"@
}

/// The distance east of UTC of the zone of that name at the instant, or
/// chrono-tz's message when it knows no such zone.
pub open spec fn zone_lookup(tz: Seq<char>, t: UtcDateTime) -> Result<int, Seq<char>> {
    if tz_name_known(tz) {
        Ok(tz_offset_seconds(tz, t.secs as int))
    } else {
        Err(unknown_zone_message(tz))
    }
}

/// The local time of the instant in `tz`, given what the zone database said
/// of `tz`: in the zone it found, else at the fixed offset that `tz`
/// spells, else the database's message as an `InvalidParameters` error.
pub open spec fn local_time_in_zone(
    t: UtcDateTime,
    tz: Seq<char>,
    zone: Result<int, Seq<char>>,
) -> Result<NaiveDateTime, ErrorView> {
    match zone {
        Ok(offset) => Ok(shifted_naive(t, offset)),
        Err(message) => match fixed_offset_seconds(tz) {
            Some(offset) => Ok(shifted_naive(t, offset)),
            None => Err(ErrorView::InvalidParameters(message)),
        },
    }
}

/// The local time of the instant: in UTC without a zone, else in the zone
/// or at the fixed offset that `tz` names.
pub open spec fn local_time_spec(t: UtcDateTime, tz: Option<Seq<char>>) -> Result<
    NaiveDateTime,
    ErrorView,
> {
    match tz {
        None => Ok(shifted_naive(t, 0)),
        Some(z) => local_time_in_zone(t, z, zone_lookup(z, t)),
    }
}

/// The view of a zone lookup.
pub open spec fn zone_view(zone: Result<i32, String>) -> Result<int, Seq<char>> {
    match zone {
        Ok(o) => Ok(o as int),
        Err(e) => Err(e@),
    }
}

/// The view of a local-time result.
pub open spec fn local_result_view(r: Result<NaiveDateTime, Error>) -> Result<
    NaiveDateTime,
    ErrorView,
> {
    match r {
        Ok(v) => Ok(v),
        Err(e) => Err(e@),
    }
}

/// The local time of the instant in `tz`, given the offset of the zone of
/// that name or the zone database's message.
pub fn local_time_with_zone(time: &UtcDateTime, tz: &str, zone: Result<i32, String>) -> (r: Result<
    NaiveDateTime,
    Error,
>)
    requires
        time.wf(),
        fixed_offset_fits(tz@),
        zone matches Ok(o) ==> -86400 < o < 86400,
    ensures
        local_result_view(r) == local_time_in_zone(*time, tz@, zone_view(zone)),
        r matches Ok(v) ==> v.wf(),
{
    match zone {
        Ok(offset) => Ok(time.naive_with_offset(offset)),
        Err(message) => match parse_fixed_offset(tz) {
            Some(offset) => Ok(time.naive_with_offset(offset.local_minus_utc)),
            None => Err(Error::InvalidParameters(message)),
        },
    }
}

/// The view of an optional reference to a text.
pub open spec fn opt_string_ref_view(s: Option<&String>) -> Option<Seq<char>> {
    match s {
        Some(t) => Some(t@),
        None => None,
    }
}

/// The local date-time of an instant in the time zone `tz`: an IANA zone
/// name or a fixed offset; UTC without one.
pub fn convert_to_local_time(time: &UtcDateTime, tz: Option<&String>) -> (r: Result<
    NaiveDateTime,
    Error,
>)
    requires
        time.wf(),
        tz matches Some(z) ==> fixed_offset_fits(z@),
    ensures
        local_result_view(r) == local_time_spec(*time, opt_string_ref_view(tz)),
        r matches Ok(v) ==> v.wf(),
{
    match tz {
        None => Ok(time.naive_utc()),
        Some(tz) => {
            let zone = match TimeZone::parse(tz.as_str()) {
                Ok(zone) => Ok(zone.utc_offset_at(time)),
                Err(message) => Err(message),
            };
            local_time_with_zone(time, tz.as_str(), zone)
        },
    }
}

/// The message of a grid whose length fits no layout.
pub open spec fn bad_grid_message() -> Seq<char> {
    "Unexpected amount of periods in schedule"@
}

/// The work times of a Cloudsitter grid of a week (see
/// `work_times_from_grid`); an `InvalidParameters` error for a grid that is
/// not 168, 336 or 672 periods long.
pub fn convert_to_work_times(periods: &Vec<bool>) -> (r: Result<Vec<WorkTime>, Error>)
    ensures
        r is Ok <==> grid_layout(periods@.len()) is Some,
        r matches Ok(times) ==> describes_grid(work_time_views(times@), periods@),
        r matches Ok(times) ==> grid_work_times(periods@, work_time_views(times@)),
        r matches Err(e) ==> e@ == ErrorView::InvalidParameters(bad_grid_message()),
{
    match work_times_from_grid(periods) {
        Some(times) => Ok(times),
        None => Err(Error::InvalidParameters("Unexpected amount of periods in schedule".to_owned())),
    }
}

/// The name of a resource of a Cloudsitter policy, if it has one.
pub open spec fn resource_name_of(r: CloudsitterResource) -> Option<Seq<char>> {
    name_in(r.identification.resource_name())
}

/// The resource is a namespace with a name.
pub open spec fn is_named_namespace(r: CloudsitterResource) -> bool {
    resource_name_of(r) is Some && is_namespace_type_spec(r.ty@)
}

/// The resource has a pause.
pub open spec fn has_pause(r: CloudsitterResource) -> bool {
    r.pause_from is Some || r.pause_to is Some
}

/// The pauses of the resources are instants that the library holds.
pub open spec fn pauses_valid(rs: Seq<CloudsitterResource>) -> bool {
    forall|i: int|
        0 <= i < rs.len() ==> (#[trigger] rs[i].pause_from matches Some(t) ==> t.wf()) && (
        rs[i].pause_to matches Some(t) ==> t.wf())
}

/// The names of the namespaces among the resources, in their order.
pub open spec fn policy_namespace_names(rs: Seq<CloudsitterResource>) -> Seq<Seq<char>>
    decreases rs.len(),
{
    if rs.len() == 0 {
        Seq::empty()
    } else if is_named_namespace(rs.last()) {
        policy_namespace_names(rs.drop_last()).push(resource_name_of(rs.last())->Some_0)
    } else {
        policy_namespace_names(rs.drop_last())
    }
}

/// The local time of a pause in the policy's zone.
pub open spec fn pause_local_time(t: Option<UtcDateTime>, tz: Seq<char>) -> Option<NaiveDateTime> {
    match t {
        Some(t) => Some(local_time_spec(t, Some(tz))->Ok_0),
        None => None,
    }
}

/// The assignment that keeps a paused namespace awake during its pause.
pub open spec fn pause_assignment(r: CloudsitterResource, tz: Seq<char>) -> AssignmentView {
    AssignmentView {
        ty: AssignmentType::Work,
        from: pause_local_time(r.pause_from, tz),
        to: pause_local_time(r.pause_to, tz),
        resource_filter: Some(
            ResourceFilterView::MatchResources(
                seq![namespace_reference(resource_name_of(r)->Some_0)],
            ),
        ),
    }
}

/// The assignments of the paused namespaces among the resources.
pub open spec fn policy_assignments(rs: Seq<CloudsitterResource>, tz: Seq<char>) -> Seq<
    AssignmentView,
>
    decreases rs.len(),
{
    if rs.len() == 0 {
        Seq::empty()
    } else if is_named_namespace(rs.last()) && has_pause(rs.last()) {
        policy_assignments(rs.drop_last(), tz).push(pause_assignment(rs.last(), tz))
    } else {
        policy_assignments(rs.drop_last(), tz)
    }
}

/// Some namespace of the policy has a pause, whose times need the zone.
pub open spec fn policy_needs_zone(rs: Seq<CloudsitterResource>) -> bool {
    exists|i: int| 0 <= i < rs.len() && is_named_namespace(rs[i]) && has_pause(#[trigger] rs[i])
}

/// The zone database knows the zone, or it spells a fixed offset.
pub open spec fn zone_usable(tz: Seq<char>) -> bool {
    tz_name_known(tz) || fixed_offset_seconds(tz) is Some
}

/// Whether some namespace of the policy has a pause, whose times need the
/// policy's zone.
pub fn needs_zone(policy: &CloudsitterPolicy) -> (r: bool)
    ensures
        r == policy_needs_zone(policy.resources@),
{
    let ghost rs = policy.resources@;
    let mut i: usize = 0;
    while i < policy.resources.len()
        invariant
            i <= rs.len(),
            rs == policy.resources@,
            forall|j: int| 0 <= j < i ==> !(is_named_namespace(rs[j]) && has_pause(#[trigger] rs[j])),
        decreases rs.len() - i,
    {
        let resource = &policy.resources[i];
        let named = match resource.identification.name() {
            Some(_) => true,
            None => false,
        };
        if named && is_namespace_type(resource.ty.as_str()) && (resource.pause_from.is_some()
            || resource.pause_to.is_some()) {
            assert(is_named_namespace(rs[i as int]) && has_pause(rs[i as int]));
            return true;
        }
        i = i + 1;
    }
    false
}

/// The spec of a `SchedulePolicy` made from a Cloudsitter policy: its name
/// as title, suspended when the policy is disabled, the policy's zone, its
/// namespaces by name, a schedule that holds the moments that the
/// policy's grid holds, and an assignment that keeps each paused
/// namespace awake during its pause.
pub open spec fn spec_from_policy(s: SchedulePolicySpecView, p: CloudsitterPolicy) -> bool {
    &&& s.title == p.name@
    &&& s.suspend == p.disabled
    &&& s.time_zone == Some(p.timezone@)
    &&& s.namespace_selector == NamespaceSelectorView::MatchNames(
        policy_namespace_names(p.resources@),
    )
    &&& describes_grid(s.schedule, p.schedules.hours@)
    &&& grid_work_times(p.schedules.hours@, s.schedule)
    &&& s.assignments == Some(policy_assignments(p.resources@, p.timezone@))
}

impl SchedulePolicySpec {
    /// The `SchedulePolicy` spec of a Cloudsitter policy. Fails with
    /// `InvalidParameters` when the grid has an unexpected length, or when a
    /// paused namespace needs a zone that is neither known nor a fixed
    /// offset.
    #[verifier::spinoff_prover]
    pub fn try_from(policy: &CloudsitterPolicy) -> (r: Result<SchedulePolicySpec, Error>)
        requires
            policy_needs_zone(policy.resources@) ==> fixed_offset_fits(policy.timezone@),
            pauses_valid(policy.resources@),
        ensures
            r is Ok <==> grid_layout(policy.schedules.hours@.len()) is Some && (policy_needs_zone(
                policy.resources@,
            ) ==> zone_usable(policy.timezone@)),
            r matches Ok(spec) ==> spec_from_policy(spec@, *policy),
            r matches Err(e) ==> e@ == ErrorView::InvalidParameters(
                if grid_layout(policy.schedules.hours@.len()) is None {
                    bad_grid_message()
                } else {
                    unknown_zone_message(policy.timezone@)
                },
            ),
    {
        let work_times = match convert_to_work_times(&policy.schedules.hours) {
            Ok(w) => w,
            Err(e) => return Err(e),
        };
        let schedule = Schedule::WorkTimes(work_times);
        let mut assignments: Vec<Assignment> = Vec::new();
        let mut namespace_names: Vec<String> = Vec::new();
        let time_zone = Some(policy.timezone.clone());
        let ghost rs = policy.resources@;
        let ghost tz = policy.timezone@;
        let mut i: usize = 0;
        while i < policy.resources.len()
            invariant
                i <= rs.len(),
                rs == policy.resources@,
                grid_layout(policy.schedules.hours@.len()) is Some,
                tz == policy.timezone@,
                time_zone == Some(policy.timezone),
                policy_needs_zone(rs) ==> fixed_offset_fits(tz),
                pauses_valid(rs),
                string_views(namespace_names@) == policy_namespace_names(rs.subrange(0, i as int)),
                assignments@.map_values(|x: Assignment| x@) == policy_assignments(
                    rs.subrange(0, i as int),
                    tz,
                ),
                policy_needs_zone(rs.subrange(0, i as int)) ==> zone_usable(tz),
            decreases rs.len() - i,
        {
            let ghost prefix = rs.subrange(0, i as int);
            let ghost next = rs.subrange(0, i + 1);
            assert(next.drop_last() =~= prefix);
            assert(next.last() == rs[i as int]);
            let resource = &policy.resources[i];
            assert(policy_needs_zone(next) ==> policy_needs_zone(prefix) || (is_named_namespace(
                rs[i as int],
            ) && has_pause(rs[i as int]))) by {
                if policy_needs_zone(next) {
                    let j = choose|j: int|
                        0 <= j < next.len() && is_named_namespace(next[j]) && has_pause(
                            #[trigger] next[j],
                        );
                    if j < i {
                        assert(prefix[j] == next[j]);
                    }
                }
            }
            let name = match resource.identification.name() {
                Some(n) => n,
                None => {
                    i = i + 1;
                    continue;
                },
            };
            let is_namespace = is_namespace_type(resource.ty.as_str());
            if is_namespace {
                namespace_names.push(name.to_owned());
                assert(string_views(namespace_names@) =~= policy_namespace_names(prefix).push(
                    name@,
                ));
            }
            if resource.pause_from.is_some() || resource.pause_to.is_some() {
                if !is_namespace {
                    i = i + 1;
                    continue;
                }
                assert(policy_needs_zone(rs)) by {
                    assert(is_named_namespace(rs[i as int]) && has_pause(rs[i as int]));
                }
                let resource_ref = ResourceReference::new_namespace(name);
                let from = match &resource.pause_from {
                    Some(pause_from) => match convert_to_local_time(
                        pause_from,
                        time_zone.as_ref(),
                    ) {
                        Ok(v) => Some(v),
                        Err(e) => {
                            assert(policy_needs_zone(rs)) by {
                                assert(is_named_namespace(rs[i as int]) && has_pause(
                                    rs[i as int],
                                ));
                            }
                            return Err(e);
                        },
                    },
                    None => None,
                };
                let to = match &resource.pause_to {
                    Some(pause_to) => match convert_to_local_time(pause_to, time_zone.as_ref()) {
                        Ok(v) => Some(v),
                        Err(e) => {
                            assert(policy_needs_zone(rs)) by {
                                assert(is_named_namespace(rs[i as int]) && has_pause(
                                    rs[i as int],
                                ));
                            }
                            return Err(e);
                        },
                    },
                    None => None,
                };
                let mut refs: Vec<ResourceReference> = Vec::new();
                refs.push(resource_ref);
                let assignment = Assignment {
                    ty: AssignmentType::Work,
                    from,
                    to,
                    resource_filter: Some(ResourceFilter::MatchResources(refs)),
                };
                assert(refs@.map_values(|r: ResourceReference| r@) =~= seq![
                    namespace_reference(name@),
                ]);
                assignments.push(assignment);
                assert(assignments@.map_values(|x: Assignment| x@) =~= policy_assignments(
                    prefix,
                    tz,
                ).push(pause_assignment(rs[i as int], tz)));
            }
            i = i + 1;
        }
        assert(rs.subrange(0, rs.len() as int) =~= rs);
        let spec = SchedulePolicySpec {
            title: policy.name.clone(),
            suspend: policy.disabled,
            time_zone,
            namespace_selector: NamespaceSelector::MatchNames(namespace_names),
            schedule,
            assignments: Some(assignments),
        };
        Ok(spec)
    }
}

/// `==` on lists of weekdays.
fn same_days(a: &Vec<crate::time::Weekday>, b: &Vec<crate::time::Weekday>) -> (r: bool)
    ensures
        r == (a@ == b@),
{
    if a.len() != b.len() {
        return false;
    }
    let mut i: usize = 0;
    while i < a.len()
        invariant
            i <= a@.len(),
            a@.len() == b@.len(),
            forall|j: int| 0 <= j < i ==> a@[j] == b@[j],
        decreases a@.len() - i,
    {
        if a[i] != b[i] {
            return false;
        }
        i = i + 1;
    }
    assert(a@ =~= b@);
    true
}

/// `==` on schedules.
#[verifier::loop_isolation(false)]
pub fn same_schedule(a: &Schedule, b: &Schedule) -> (r: bool)
    ensures
        r == (a@ == b@),
{
    match (a, b) {
        (Schedule::WorkTimes(x), Schedule::WorkTimes(y)) => {
            if x.len() != y.len() {
                assert(work_time_views(x@).len() != work_time_views(y@).len());
                return false;
            }
            let mut i: usize = 0;
            while i < x.len()
                invariant
                    i <= x@.len(),
                    x@.len() == y@.len(),
                    forall|j: int| 0 <= j < i ==> #[trigger] x@[j]@ == y@[j]@,
                decreases x@.len() - i,
            {
                let same = x[i].start == y[i].start && x[i].stop == y[i].stop && same_days(
                    &x[i].days,
                    &y[i].days,
                );
                if !same {
                    assert(work_time_views(x@)[i as int] != work_time_views(y@)[i as int]);
                    return false;
                }
                i = i + 1;
            }
            assert(work_time_views(x@) =~= work_time_views(y@));
            true
        },
    }
}

/// `==` on label selector requirements.
fn same_requirement(a: &LabelSelectorRequirement, b: &LabelSelectorRequirement) -> (r: bool)
    ensures
        r == (a@ == b@),
{
    a.key == b.key && a.operator == b.operator && same_optional_texts(&a.values, &b.values)
}

/// `==` on namespace selectors.
#[verifier::loop_isolation(false)]
pub fn same_selector(a: &NamespaceSelector, b: &NamespaceSelector) -> (r: bool)
    ensures
        r == (a@ == b@),
{
    match (a, b) {
        (NamespaceSelector::MatchNames(x), NamespaceSelector::MatchNames(y)) => same_texts(x, y),
        (NamespaceSelector::MatchLabels(x), NamespaceSelector::MatchLabels(y)) => x.same_as(y),
        (NamespaceSelector::MatchExpressions(x), NamespaceSelector::MatchExpressions(y)) => {
            let ghost vx = x@.map_values(|e: LabelSelectorRequirement| e@);
            let ghost vy = y@.map_values(|e: LabelSelectorRequirement| e@);
            if x.len() != y.len() {
                assert(vx.len() != vy.len());
                return false;
            }
            let mut i: usize = 0;
            while i < x.len()
                invariant
                    i <= x@.len(),
                    x@.len() == y@.len(),
                    vx == x@.map_values(|e: LabelSelectorRequirement| e@),
                    vy == y@.map_values(|e: LabelSelectorRequirement| e@),
                    forall|j: int| 0 <= j < i ==> #[trigger] vx[j] == vy[j],
                decreases x@.len() - i,
            {
                if !same_requirement(&x[i], &y[i]) {
                    assert(vx[i as int] != vy[i as int]);
                    return false;
                }
                i = i + 1;
            }
            assert(vx =~= vy);
            true
        },
        (NamespaceSelector::MatchNames(_), _) => false,
        (NamespaceSelector::MatchLabels(_), _) => false,
        (NamespaceSelector::MatchExpressions(_), _) => false,
    }
}

/// `==` on optional date-times.
fn same_optional_time(a: &Option<NaiveDateTime>, b: &Option<NaiveDateTime>) -> (r: bool)
    ensures
        r == (*a == *b),
{
    match (a, b) {
        (Some(x), Some(y)) => *x == *y,
        (None, None) => true,
        _ => false,
    }
}

/// `==` on resource references.
fn same_reference(a: &ResourceReference, b: &ResourceReference) -> (r: bool)
    ensures
        r == (a@ == b@),
{
    a.api_version == b.api_version && a.kind == b.kind && a.name == b.name && same_optional_text(
        &a.namespace,
        &b.namespace,
    )
}

/// The view of an optional filter.
pub open spec fn opt_filter_view(f: Option<ResourceFilter>) -> Option<ResourceFilterView> {
    match f {
        Some(f) => Some(f@),
        None => None,
    }
}

/// `==` on optional resource filters.
#[verifier::loop_isolation(false)]
fn same_optional_filter(a: &Option<ResourceFilter>, b: &Option<ResourceFilter>) -> (r: bool)
    ensures
        r == (opt_filter_view(*a) == opt_filter_view(*b)),
{
    match (a, b) {
        (Some(ResourceFilter::MatchResources(x)), Some(ResourceFilter::MatchResources(y))) => {
            let ghost vx = x@.map_values(|e: ResourceReference| e@);
            let ghost vy = y@.map_values(|e: ResourceReference| e@);
            if x.len() != y.len() {
                assert(vx.len() != vy.len());
                return false;
            }
            let mut i: usize = 0;
            while i < x.len()
                invariant
                    i <= x@.len(),
                    x@.len() == y@.len(),
                    vx == x@.map_values(|e: ResourceReference| e@),
                    vy == y@.map_values(|e: ResourceReference| e@),
                    forall|j: int| 0 <= j < i ==> #[trigger] vx[j] == vy[j],
                decreases x@.len() - i,
            {
                if !same_reference(&x[i], &y[i]) {
                    assert(vx[i as int] != vy[i as int]);
                    return false;
                }
                i = i + 1;
            }
            assert(vx =~= vy);
            true
        },
        (None, None) => true,
        _ => false,
    }
}

/// `==` on assignments.
fn same_assignment(a: &Assignment, b: &Assignment) -> (r: bool)
    ensures
        r == (a@ == b@),
{
    a.ty == b.ty && same_optional_time(&a.from, &b.from) && same_optional_time(&a.to, &b.to)
        && same_optional_filter(&a.resource_filter, &b.resource_filter)
}

/// `==` on optional lists of assignments.
#[verifier::loop_isolation(false)]
fn same_assignments(a: &Option<Vec<Assignment>>, b: &Option<Vec<Assignment>>) -> (r: bool)
    ensures
        r == (opt_assignments_view(*a) == opt_assignments_view(*b)),
{
    match (a, b) {
        (Some(x), Some(y)) => {
            let ghost vx = x@.map_values(|e: Assignment| e@);
            let ghost vy = y@.map_values(|e: Assignment| e@);
            if x.len() != y.len() {
                assert(vx.len() != vy.len());
                return false;
            }
            let mut i: usize = 0;
            while i < x.len()
                invariant
                    i <= x@.len(),
                    x@.len() == y@.len(),
                    vx == x@.map_values(|e: Assignment| e@),
                    vy == y@.map_values(|e: Assignment| e@),
                    forall|j: int| 0 <= j < i ==> #[trigger] vx[j] == vy[j],
                decreases x@.len() - i,
            {
                if !same_assignment(&x[i], &y[i]) {
                    assert(vx[i as int] != vy[i as int]);
                    return false;
                }
                i = i + 1;
            }
            assert(vx =~= vy);
            true
        },
        (None, None) => true,
        _ => false,
    }
}

impl SchedulePolicySpec {
    /// `==`: the two specs ask for the same.
    pub fn same_as(&self, other: &SchedulePolicySpec) -> (r: bool)
        ensures
            r == (self@ == other@),
    {
        self.title == other.title && self.suspend == other.suspend && same_selector(
            &self.namespace_selector,
            &other.namespace_selector,
        ) && same_schedule(&self.schedule, &other.schedule) && same_assignments(
            &self.assignments,
            &other.assignments,
        ) && same_optional_text(&self.time_zone, &other.time_zone)
    }
}

} // verus!
