//! Health of the trading platform, polled once per window start.
use crate::json::{document_of, parse_json, Json};
use crate::text::{ascii_lower_text, fill1, fill2, filled, same_but_case};
use vstd::prelude::*;

verus! {

/// Platform health. When the platform is degraded or under maintenance, trading pauses
/// for the window.
#[derive(Clone, Debug)]
pub struct MaintenanceStatus {
    /// True when the platform is fully operational (safe to trade).
    pub ok: bool,
    /// Whether there is a confirmed result from the status API yet.
    pub checked: bool,
    /// Short human label, e.g. "OK", "UNDER MAINTENANCE!", "INCIDENT!".
    pub label: String,
}

impl Default for MaintenanceStatus {
    fn default() -> (r: Self)
        ensures
            r.ok && !r.checked && r.label@ == "OK"@,
    {
        MaintenanceStatus { ok: true, checked: false, label: "OK".to_owned() }
    }
}

/// Whether a maintenance entry is in progress.
pub open spec fn in_progress(m: Json) -> bool {
    m.str_at("status"@) matches Some(s) && ascii_lower_text(s) == ascii_lower_text("INPROGRESS"@)
}

/// What the status page says of itself.
pub open spec fn page_status(v: Json) -> Seq<char> {
    match v.spec_get("page"@) {
        Some(p) => match p.str_at("status"@) {
            Some(s) => s,
            None => Seq::<char>::empty(),
        },
        None => Seq::<char>::empty(),
    }
}

/// Open incidents.
pub open spec fn incident_count(v: Json) -> nat {
    match v.items_at("activeIncidents"@) {
        Some(items) => items.len(),
        None => 0,
    }
}

/// Whether any listed maintenance is in progress.
pub open spec fn under_maintenance(v: Json) -> bool {
    match v.items_at("activeMaintenances"@) {
        Some(items) => some_in_progress(items),
        None => false,
    }
}

/// Whether one of the entries is in progress.
pub open spec fn some_in_progress(items: Seq<Json>) -> bool {
    exists|i: int| 0 <= i < items.len() && in_progress(#[trigger] items[i])
}

/// Up, without incidents, and no maintenance in progress.
pub open spec fn operational(v: Json) -> bool {
    &&& ascii_lower_text(page_status(v)) == ascii_lower_text("UP"@)
    &&& incident_count(v) == 0
    &&& !under_maintenance(v)
}

pub open spec fn status_label(v: Json) -> Seq<char> {
    if operational(v) {
        "OK"@
    } else if under_maintenance(v) {
        "UNDER MAINTENANCE!"@
    } else if incident_count(v) > 0 {
        "INCIDENT!"@
    } else {
        filled("DEGRADED ({})!"@, seq![page_status(v)])
    }
}

fn any_in_progress(items: &Vec<Json>) -> (r: bool)
    ensures
        r == some_in_progress(items@),
{
    let mut i: usize = 0;
    while i < items.len()
        invariant
            i <= items.len(),
            forall|j: int| 0 <= j < i ==> !in_progress(#[trigger] items@[j]),
        decreases items.len() - i,
    {
        if let Some(s) = items[i].get_str("status") {
            if same_but_case(s, "INPROGRESS") {
                assert(in_progress(items@[i as int]));
                return true;
            }
        }
        i = i + 1;
    }
    false
}

impl MaintenanceStatus {
    /// The check could not be completed (network error, bad payload). A connectivity
    /// hiccup does not block trading, but it is shown.
    pub fn unknown() -> (r: Self)
        ensures
            r.ok && !r.checked && r.label@ == "CHECK FAILED"@,
    {
        MaintenanceStatus { ok: true, checked: false, label: "CHECK FAILED".to_owned() }
    }

    pub open spec fn spec_blocks_trading(&self) -> bool {
        self.checked && !self.ok
    }

    /// Only a confirmed bad platform status blocks trading.
    #[verifier::when_used_as_spec(spec_blocks_trading)]
    pub fn blocks_trading(&self) -> (r: bool)
        ensures
            r == self.spec_blocks_trading(),
    {
        self.checked && !self.ok
    }

    /// The status that a fetched text stands for; unknown without one, and where it is no
    /// JSON.
    pub fn of_text(text: Option<&str>) -> (r: Self)
        ensures
            match text {
                Some(t) => match document_of(t@) {
                    Some(v) => r.checked && r.ok == operational(v) && r.label@ == status_label(v),
                    None => r.ok && !r.checked && r.label@ == "CHECK FAILED"@,
                },
                None => r.ok && !r.checked && r.label@ == "CHECK FAILED"@,
            },
    {
        match text {
            Some(t) => match parse_json(t) {
                Some(v) => MaintenanceStatus::of_summary(Some(&v)),
                None => MaintenanceStatus::of_summary(None),
            },
            None => MaintenanceStatus::of_summary(None),
        }
    }

    /// The status that a fetched summary stands for; unknown without one.
    pub fn of_summary(summary: Option<&Json>) -> (r: Self)
        ensures
            match summary {
                Some(v) => r.checked && r.ok == operational(*v) && r.label@ == status_label(*v),
                None => r.ok && !r.checked && r.label@ == "CHECK FAILED"@,
            },
    {
        let v: &Json = match summary {
            Some(v) => v,
            None => {
                return MaintenanceStatus::unknown();
            },
        };
        let page: &str = match v.get("page") {
            Some(p) => match p.get_str("status") {
                Some(s) => s,
                None => "",
            },
            None => "",
        };
        proof {
            reveal_strlit("");
            assert(""@ =~= Seq::<char>::empty());
        }
        let incidents: usize = match v.get_items("activeIncidents") {
            Some(items) => items.len(),
            None => 0,
        };
        let maint_in_progress: bool = match v.get_items("activeMaintenances") {
            Some(items) => any_in_progress(items),
            None => false,
        };
        let status_up: bool = same_but_case(page, "UP");
        let ok: bool = status_up && incidents == 0 && !maint_in_progress;
        let label: String = if ok {
            "OK".to_owned()
        } else if maint_in_progress {
            "UNDER MAINTENANCE!".to_owned()
        } else if incidents > 0 {
            "INCIDENT!".to_owned()
        } else {
            fill1("DEGRADED ({})!", page)
        };
        MaintenanceStatus { ok, checked: true, label }
    }
}

/// Bold, colored maintenance badge for the dashboard status line.
pub open spec fn badge(m: MaintenanceStatus) -> Seq<char> {
    filled(
        "{}Maintenance: {}\x1b[0m"@,
        seq![
            if !m.checked {
                "\x1b[1;38;5;179m"@
            } else if m.ok {
                "\x1b[1;38;5;114m"@
            } else {
                "\x1b[1;38;5;174m"@
            },
            m.label@,
        ],
    )
}

pub fn paint_maintenance(m: &MaintenanceStatus) -> (r: String)
    ensures
        r@ == badge(*m),
{
    let code: &str = if !m.checked {
        "\x1b[1;38;5;179m"
    } else if m.ok {
        "\x1b[1;38;5;114m"
    } else {
        "\x1b[1;38;5;174m"
    };
    fill2("{}Maintenance: {}\x1b[0m", code, m.label.as_str())
}

/// A summary with an incident, a maintenance in progress or a page that is not up blocks
/// trading, and every other one lets it go on.
pub proof fn law_only_trouble_blocks(v: Json, s: MaintenanceStatus)
    requires
        s.checked && s.ok == operational(v) && s.label@ == status_label(v),
    ensures
        s.blocks_trading() == (incident_count(v) > 0 || under_maintenance(v) || ascii_lower_text(
            page_status(v),
        ) != ascii_lower_text("UP"@)),
        !s.blocks_trading() ==> s.label@ == "OK"@,
{
}

} // verus!
