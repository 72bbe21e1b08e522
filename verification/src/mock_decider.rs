//! The mock decider: how it routes the decided events of a mock run to the
//! planner's and the implementer's requirements, the requirement documents
//! it writes, and the requirement id it records in each decided event.

use vstd::prelude::*;
use crate::data::{
    parse_yaml, set_yaml_fields, yaml_tree, yaml_with_fields, field_spec, field_specs, get, untag, DataValue,
    FieldSpec, FieldValue,
};
use crate::error::AppError;
use crate::mock::{decimal_digits, decimal_text};
use crate::mock_run::{safe_path_component, validate_safe_path_component};
use crate::text::{concat, concat3, owned, string_views};

verus! {

/// What the mock decider does with the decided events of its run.
#[derive(Debug, Clone)]
pub struct MockDeciderPlan {
    /// Label of both requirements: the first issue label.
    pub label: String,
    /// Events routed to the planner's requirement: the first one.
    pub planner_events: Vec<String>,
    /// Events routed to the implementer's requirement: all the others.
    pub implementer_events: Vec<String>,
    /// File name of the planner's requirement.
    pub planner_file: String,
    /// File name of the implementer's requirement.
    pub implementer_file: String,
}

/// The error for a mock tag that is not a safe path component.
pub open spec fn unsafe_tag_message(tag: Seq<char>) -> Seq<char> {
    "mock_tag '"@ + tag + "' must be a safe path component (letters, numbers, '-' or '_')"@
}

/// The error for a run with too few decided events.
pub open spec fn too_few_events_message(tag: Seq<char>, found: nat) -> Seq<char> {
    "Mock decider requires at least 2 decided events for tag '"@ + tag + "', found "@ + decimal_digits(found)
}

/// Plan the mock decider's run from the ids of its decided events (in the
/// order they are listed), its mock tag and the repository's issue labels.
/// The tag must be a safe path component, there must be a label, and there
/// must be at least two events; the first event goes to the planner, the
/// rest to the implementer.
pub fn plan_mock_decider(decided: &Vec<String>, tag: &str, labels: &Vec<String>) -> (r: Result<MockDeciderPlan, AppError>)
    ensures
        !safe_path_component(tag@) ==> (r matches Err(AppError::InvalidConfig(m)) && m@ == unsafe_tag_message(tag@)),
        safe_path_component(tag@) && labels@.len() == 0 ==> (r matches Err(AppError::InvalidConfig(m))
            && m@ == "No requirement labels available for mock decider"@),
        safe_path_component(tag@) && labels@.len() > 0 && decided@.len() < 2 ==> (r matches Err(
            AppError::InvalidConfig(m),
        ) && m@ == too_few_events_message(tag@, decided@.len())),
        safe_path_component(tag@) && labels@.len() > 0 && decided@.len() >= 2 ==> (r matches Ok(p) && {
            &&& p.label@ == labels@[0]@
            &&& string_views(p.planner_events@) == string_views(decided@).take(1)
            &&& string_views(p.implementer_events@) == string_views(decided@).skip(1)
            &&& p.planner_file@ == "planner-"@ + tag@ + ".yml"@
            &&& p.implementer_file@ == "impl-"@ + tag@ + ".yml"@
        }),
{
    if !validate_safe_path_component(tag) {
        return Err(
            AppError::InvalidConfig(
                concat3("mock_tag '", tag, "' must be a safe path component (letters, numbers, '-' or '_')"),
            ),
        );
    }
    if labels.len() == 0 {
        return Err(AppError::InvalidConfig(owned("No requirement labels available for mock decider")));
    }
    if decided.len() < 2 {
        let mut msg = concat3("Mock decider requires at least 2 decided events for tag '", tag, "', found ");
        let count = decimal_text(decided.len() as u64);
        msg.append(count.as_str());
        return Err(AppError::InvalidConfig(msg));
    }
    let mut planner_events: Vec<String> = Vec::new();
    let first = decided[0].clone();
    assert(first@ == decided@[0]@);
    planner_events.push(first);
    let mut implementer_events: Vec<String> = Vec::new();
    let mut k: usize = 1;
    while k < decided.len()
        invariant
            1 <= k <= decided.len(),
            string_views(implementer_events@) == string_views(decided@).subrange(1, k as int),
        decreases decided.len() - k,
    {
        let c = decided[k].clone();
        assert(c@ == decided@[k as int]@);
        let ghost before = implementer_events@;
        implementer_events.push(c);
        assert(string_views(implementer_events@) =~= string_views(before).push(c@));
        assert(string_views(implementer_events@) =~= string_views(decided@).subrange(1, k + 1));
        k = k + 1;
    }
    assert(string_views(planner_events@) =~= string_views(decided@).take(1));
    assert(string_views(decided@).subrange(1, decided@.len() as int) =~= string_views(decided@).skip(1));
    Ok(MockDeciderPlan {
        label: labels[0].clone(),
        planner_events,
        implementer_events,
        planner_file: concat3("planner-", tag, ".yml"),
        implementer_file: concat3("impl-", tag, ".yml"),
    })
}

/// The tags around a value, outermost first (a printed YAML tag is never
/// empty; an empty one is passed over).
pub open spec fn tag_chain(v: DataValue) -> Seq<Seq<char>>
    decreases v,
{
    match v {
        DataValue::Tagged(t, inner) => if t@.len() > 0 {
            seq![t@] + tag_chain(*inner)
        } else {
            tag_chain(*inner)
        },
        _ => seq![],
    }
}

fn tags_of(v: &DataValue) -> (r: Vec<String>)
    ensures
        string_views(r@) == tag_chain(*v),
        forall|i: int| 0 <= i < r@.len() ==> (#[trigger] r@[i])@.len() > 0,
    decreases v,
{
    match v {
        DataValue::Tagged(t, inner) => {
            let mut rest = tags_of(inner);
            if t.as_str().is_empty() {
                rest
            } else {
                let mut out: Vec<String> = Vec::new();
                out.push(t.clone());
                let ghost before = rest@;
                out.append(&mut rest);
                assert(string_views(out@) =~= seq![t@] + string_views(before));
                out
            }
        },
        _ => Vec::new(),
    }
}

/// The `source_events` field the mock decider sets in a requirement whose
/// template reads as `doc`: the list of `ids`, under the tags of the
/// template's own list where it has one; no field where the template's
/// `source_events` is there but is not a list (it is then left as it is).
pub open spec fn source_events_field(doc: DataValue, ids: Seq<Seq<char>>) -> Option<FieldSpec> {
    match get(doc, "source_events"@) {
        None => Some(FieldSpec::TextList(seq![], ids)),
        Some(v) => if untag(v) is List {
            Some(FieldSpec::TextList(tag_chain(v), ids))
        } else {
            None
        },
    }
}

/// The summary of a mock requirement.
pub open spec fn requirement_summary(tag: Seq<char>) -> Seq<char> {
    "This is a mock requirement created by jlo --mock for workflow-scaffold validation. Mock tag: "@ + tag
}

/// The fields the mock decider sets in a requirement, in the order it sets
/// them: the planner's requirement is not implementation-ready and says why
/// it needs the planner; the implementer's is ready, with an empty reason.
pub open spec fn requirement_fields(
    id: Seq<char>,
    label: Seq<char>,
    tag: Seq<char>,
    source_events: Option<FieldSpec>,
    planner: bool,
) -> Seq<(Seq<char>, FieldSpec)> {
    let head = seq![
        ("id"@, FieldSpec::Text(id)),
        ("label"@, FieldSpec::Text(label)),
        ("summary"@, FieldSpec::Text(requirement_summary(tag))),
    ];
    let events = match source_events {
        Some(f) => seq![("source_events"@, f)],
        None => seq![],
    };
    let tail = if planner {
        seq![
            ("title"@, FieldSpec::Text("Mock requirement requiring planner detailization"@)),
            ("priority"@, FieldSpec::Text("high"@)),
            ("implementation_ready"@, FieldSpec::Flag(false)),
            ("planner_request_reason"@, FieldSpec::Text(
                "Mock requirement needs planner detailization for workflow validation"@,
            )),
        ]
    } else {
        seq![
            ("title"@, FieldSpec::Text("Mock requirement ready for implementation"@)),
            ("implementation_ready"@, FieldSpec::Flag(true)),
            ("planner_request_reason"@, FieldSpec::Text(""@)),
        ]
    };
    head + events + tail
}

fn push_text(fields: &mut Vec<(String, FieldValue)>, key: &str, value: &str)
    requires
        forall|i: int| 0 <= i < old(fields)@.len() ==> crate::data::tags_nonempty(#[trigger] old(fields)@[i].1),
    ensures
        field_specs(final(fields)@) == field_specs(old(fields)@).push((key@, FieldSpec::Text(value@))),
        forall|i: int| 0 <= i < final(fields)@.len() ==> crate::data::tags_nonempty(#[trigger] final(fields)@[i].1),
{
    fields.push((owned(key), FieldValue::Text(owned(value))));
    assert(field_specs(fields@) =~= field_specs(old(fields)@).push((key@, FieldSpec::Text(value@))));
}

fn push_flag(fields: &mut Vec<(String, FieldValue)>, key: &str, value: bool)
    requires
        forall|i: int| 0 <= i < old(fields)@.len() ==> crate::data::tags_nonempty(#[trigger] old(fields)@[i].1),
    ensures
        field_specs(final(fields)@) == field_specs(old(fields)@).push((key@, FieldSpec::Flag(value))),
        forall|i: int| 0 <= i < final(fields)@.len() ==> crate::data::tags_nonempty(#[trigger] final(fields)@[i].1),
{
    fields.push((owned(key), FieldValue::Flag(value)));
    assert(field_specs(fields@) =~= field_specs(old(fields)@).push((key@, FieldSpec::Flag(value))));
}

fn clone_strings(v: &Vec<String>) -> (r: Vec<String>)
    ensures
        string_views(r@) == string_views(v@),
{
    let mut r: Vec<String> = Vec::new();
    let mut k: usize = 0;
    while k < v.len()
        invariant
            k <= v.len(),
            string_views(r@) == string_views(v@).take(k as int),
        decreases v.len() - k,
    {
        let c = v[k].clone();
        assert(c@ == v@[k as int]@);
        let ghost before = r@;
        r.push(c);
        assert(string_views(r@) =~= string_views(before).push(c@));
        assert(string_views(r@) =~= string_views(v@).take(k + 1));
        k = k + 1;
    }
    assert(string_views(v@).take(v@.len() as int) =~= string_views(v@));
    r
}

/// The YAML text of a mock requirement: the template with the requirement's
/// fields set (see `requirement_fields`). A template that does not read as
/// YAML, or a document that does not print, is an internal error.
pub fn mock_requirement_yaml(
    template: &str,
    id: &str,
    label: &str,
    tag: &str,
    events: &Vec<String>,
    planner: bool,
) -> (r: Result<String, AppError>)
    ensures
        match yaml_tree(template@) {
            Err(e) => r matches Err(AppError::InternalError(m)) && m@
                == "Failed to parse mock requirement template: "@ + e,
            Ok(doc) => match yaml_with_fields(
                template@,
                requirement_fields(id@, label@, tag@, source_events_field(doc, string_views(events@)), planner),
            ) {
                Ok(t) => r matches Ok(x) && x@ == t,
                Err(e) => r matches Err(AppError::InternalError(m)) && m@ == "Failed to serialize "@ + (
                if planner {
                    "planner"@
                } else {
                    "implementer"@
                }) + " requirement YAML: "@ + e,
            },
        },
{
    let doc = match parse_yaml(template) {
        Ok(d) => d,
        Err(e) => {
            return Err(AppError::InternalError(concat("Failed to parse mock requirement template: ", e.as_str())));
        },
    };
    let ghost ids = string_views(events@);
    let ghost se = source_events_field(doc, ids);
    let ghost want = requirement_fields(id@, label@, tag@, se, planner);
    let mut fields: Vec<(String, FieldValue)> = Vec::new();
    push_text(&mut fields, "id", id);
    push_text(&mut fields, "label", label);
    let summary = concat(
        "This is a mock requirement created by jlo --mock for workflow-scaffold validation. Mock tag: ",
        tag,
    );
    push_text(&mut fields, "summary", summary.as_str());
    assert(field_specs(fields@) =~= want.take(3));
    let found = doc.get("source_events");
    let source: Option<Vec<String>> = match found {
        None => {
            let t: Vec<String> = Vec::new();
            assert(string_views(t@) =~= seq![]);
            Some(t)
        },
        Some(v) => match v.untagged() {
            DataValue::List(_) => Some(tags_of(v)),
            _ => None,
        },
    };
    assert(source is Some <==> se is Some);
    let ghost n: int = if se is Some { 4 } else { 3 };
    match source {
        Some(tags) => {
            assert(se == Some(FieldSpec::TextList(string_views(tags@), ids)));
            let evs = clone_strings(events);
            let item = (owned("source_events"), FieldValue::TextList(tags, evs));
            assert(field_spec(item.1) =~~= FieldSpec::TextList(string_views(tags@), ids));
            let ghost before = fields@;
            fields.push(item);
            assert(field_specs(fields@) =~= field_specs(before).push((item.0@, field_spec(item.1))));
        },
        None => {},
    }
    assert(field_specs(fields@) =~= want.take(n));
    if planner {
        push_text(&mut fields, "title", "Mock requirement requiring planner detailization");
        push_text(&mut fields, "priority", "high");
        push_flag(&mut fields, "implementation_ready", false);
        push_text(
            &mut fields,
            "planner_request_reason",
            "Mock requirement needs planner detailization for workflow validation",
        );
    } else {
        push_text(&mut fields, "title", "Mock requirement ready for implementation");
        push_flag(&mut fields, "implementation_ready", true);
        push_text(&mut fields, "planner_request_reason", "");
    }
    proof {
        reveal_strlit("");
        assert(field_specs(fields@) =~= want);
    }
    match set_yaml_fields(template, &fields) {
        Ok(t) => Ok(t),
        Err(e) => {
            let mut msg = owned("Failed to serialize ");
            if planner {
                msg.append("planner");
            } else {
                msg.append("implementer");
            }
            msg.append(" requirement YAML: ");
            msg.append(e.as_str());
            Err(AppError::InternalError(msg))
        },
    }
}

/// A decided event's YAML with `key` (the mock decider's `requirement_id`)
/// set to `value`; `None`, and the event left as it is, where the content
/// does not read as a YAML mapping or the result does not print.
pub fn tag_decided_event(content: &str, key: &str, value: &str) -> (r: Option<String>)
    ensures
        match yaml_tree(content@) {
            Ok(doc) => if untag(doc) is Table {
                match yaml_with_fields(content@, seq![(key@, FieldSpec::Text(value@))]) {
                    Ok(t) => r matches Some(x) && x@ == t,
                    Err(_) => r is None,
                }
            } else {
                r is None
            },
            Err(_) => r is None,
        },
{
    let doc = match parse_yaml(content) {
        Ok(d) => d,
        Err(_) => {
            return None;
        },
    };
    match doc.untagged() {
        DataValue::Table(_) => {},
        _ => {
            return None;
        },
    }
    let mut fields: Vec<(String, FieldValue)> = Vec::new();
    push_text(&mut fields, key, value);
    assert(field_specs(fields@) =~= seq![(key@, FieldSpec::Text(value@))]);
    match set_yaml_fields(content, &fields) {
        Ok(t) => Some(t),
        Err(_) => None,
    }
}

/// The requirement a decided event is recorded against: the planner's for
/// an event routed to the planner, the implementer's for every other.
pub fn requirement_for_event<'a>(
    event_id: &str,
    plan: &MockDeciderPlan,
    planner_id: &'a str,
    implementer_id: &'a str,
) -> (r: &'a str)
    ensures
        r@ == if string_views(plan.planner_events@).contains(event_id@) {
            planner_id@
        } else {
            implementer_id@
        },
{
    let mut k: usize = 0;
    while k < plan.planner_events.len()
        invariant
            k <= plan.planner_events.len(),
            forall|i: int| 0 <= i < k ==> string_views(plan.planner_events@)[i] != event_id@,
        decreases plan.planner_events.len() - k,
    {
        if crate::text::str_eq(plan.planner_events[k].as_str(), event_id) {
            assert(string_views(plan.planner_events@)[k as int] == event_id@);
            return planner_id;
        }
        k = k + 1;
    }
    implementer_id
}

} // verus!
