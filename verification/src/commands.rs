//! The decisions and texts of the command handlers: when a write asks for
//! confirmation or stops at a dry-run plan, which settings `config` accepts, what
//! each device's outcome reads like, and how the outcomes of a multi-device command
//! become one report and one exit code.
//!
//! Prompting, reading the answer, writing files and printing are done by the tool;
//! the per-device requests go through a [`Transport`].

use vstd::prelude::*;
use crate::cli::OutputFormat;
use crate::error::{exit_code_of, kind_name, message_of, Error, ErrorView};
use crate::guardrail::{classify, classification, Hazard, HazardView};
use crate::json::{compact, quoted, to_compact_string, Json};
use crate::model::{relay_state_name, DeviceStatus, DeviceStatusView, MqttInfoView, Relay, RelayView};
use crate::ops::{
    firmware_version, get_status, mqtt_info, mqtt_reply, mqtt_result_view, relay_result_view,
    set_power, status_reply, string_result_view, PowerAction,
};
use crate::parse::result_view;
use crate::cli::Ctx;
use crate::transport::DeviceAddr;
use crate::transport::DeviceAddrView;
use crate::discovery::{found_view, Discovered, DiscoveredView};
use crate::render::{health_text, relay_label};
use crate::target::{resolved_view, Resolved, ResolvedView, Selector};
use crate::text::{
    char_pos, chars_eq_str, dec, dec_string, find_char, is_ws, is_ws_char, lower_s, slice_vec,
    to_chars, trim, trimmed, views,
};
use crate::transport::{lower_chars, reply_view, Transport};

verus! {

/// A `--group`/`--all` selection is a bulk write even if it resolves to one device,
/// and always confirms (unless `--yes`).
pub fn is_bulk(sel: &Selector) -> (r: bool)
    ensures
        r == (sel@.group is Some || sel@.all),
{
    sel.group.is_some() || sel.all
}

/// What the confirmation / dry-run gate decides for a write.
#[derive(Debug, Clone, Copy, PartialEq, Eq, Structural)]
pub enum GateStep {
    /// `--dry-run`: show the plan and contact nothing.
    Plan,
    /// Ask the user before going on.
    Confirm,
    /// Go on without asking.
    Proceed,
}

/// The step before acting on `targets` devices: `--dry-run` shows what would
/// happen and sends nothing; an
/// action that requires confirmation, a bulk selection, or more than one device
/// asks first unless `--yes` is set.
pub open spec fn gate_of(dry_run: bool, yes: bool, require_confirm: bool, bulk: bool, targets: nat) -> GateStep {
    if dry_run {
        GateStep::Plan
    } else if !yes && (require_confirm || bulk || targets > 1) {
        GateStep::Confirm
    } else {
        GateStep::Proceed
    }
}

/// Decides the confirmation / dry-run gate for a write.
pub fn gate_step(dry_run: bool, yes: bool, require_confirm: bool, bulk: bool, targets: usize) -> (r:
    GateStep)
    ensures
        r == gate_of(dry_run, yes, require_confirm, bulk, targets as nat),
{
    if dry_run {
        GateStep::Plan
    } else if !yes && (require_confirm || bulk || targets > 1) {
        GateStep::Confirm
    } else {
        GateStep::Proceed
    }
}

/// The commands that change a device, as the confirmation policy tells them apart.
#[derive(Debug, Clone, PartialEq, Eq, Structural)]
pub enum Write {
    /// `on`, `off`, `toggle`, `switch`: basic, reversible relay control.
    RelayPower,
    /// `config set`.
    ConfigSet,
    /// `firmware update`: can brick the device.
    FirmwareUpdate,
    /// `template apply`: remaps the device's pins.
    TemplateApply,
    /// `console`, for a command whose hazard requires confirmation (or not).
    Console(bool),
}

/// Whether a write asks before acting even on one device: every write but basic relay
/// control, and a console command unless it is known to be safe.
pub open spec fn confirms_alone(w: Write) -> bool {
    match w {
        Write::RelayPower => false,
        Write::ConfigSet => true,
        Write::FirmwareUpdate => true,
        Write::TemplateApply => true,
        Write::Console(require) => require,
    }
}

/// The confirmation step for a write of kind `w` on `targets` devices: relay control asks only
/// for a bulk selection or several devices; a settings write, a template, a firmware
/// flash or a console command that is not known to be safe asks even for one.
pub fn write_step(w: Write, dry_run: bool, yes: bool, bulk: bool, targets: usize) -> (r: GateStep)
    ensures
        r == gate_of(dry_run, yes, confirms_alone(w), bulk, targets as nat),
{
    let require_confirm = match w {
        Write::RelayPower => false,
        Write::ConfigSet => true,
        Write::FirmwareUpdate => true,
        Write::TemplateApply => true,
        Write::Console(require) => require,
    };
    gate_step(dry_run, yes, require_confirm, bulk, targets)
}

/// Whether an answer to a confirmation prompt agrees: `y` or `yes` in any ASCII
/// case, surrounding whitespace ignored.
pub open spec fn agrees(answer: Seq<char>) -> bool {
    lower_s(trim(answer)) == "y"@ || lower_s(trim(answer)) == "yes"@
}

/// Reads an answer to a confirmation prompt.
pub fn is_yes(answer: &str) -> (r: bool)
    ensures
        r == agrees(answer@),
{
    let t = trimmed(to_chars(answer).as_slice());
    let l = lower_chars(t.as_slice());
    chars_eq_str(l.as_slice(), "y") || chars_eq_str(l.as_slice(), "yes")
}

/// The outcome of a confirmation step once the answer to any prompt is known:
/// `Ok(false)` when only the dry-run listing is shown, `Ok(true)` when the write goes
/// on, and `Aborted` when the user was asked and did not agree (`answer` is read only
/// when the step is `Confirm`).
pub fn gate_outcome(step: GateStep, answer: &str) -> (r: Result<bool, Error>)
    ensures
        step == GateStep::Plan ==> r == Ok::<bool, Error>(false),
        step == GateStep::Proceed ==> r == Ok::<bool, Error>(true),
        step == GateStep::Confirm && agrees(answer@) ==> r == Ok::<bool, Error>(true),
        step == GateStep::Confirm && !agrees(answer@) ==> (r matches Err(e) && e@
            == ErrorView::Aborted("aborted by user"@)),
{
    match step {
        GateStep::Plan => Ok(false),
        GateStep::Proceed => Ok(true),
        GateStep::Confirm => {
            if is_yes(answer) {
                Ok(true)
            } else {
                Err(Error::Aborted { message: String::from_str("aborted by user") })
            }
        },
    }
}

/// One line naming a target: its label and host.
pub open spec fn target_line(t: ResolvedView) -> Seq<char> {
    "\n  - "@ + t.label + " ("@ + t.addr.host + ")"@
}

pub open spec fn target_lines(ts: Seq<ResolvedView>) -> Seq<char>
    decreases ts.len(),
{
    if ts.len() == 0 {
        Seq::empty()
    } else {
        target_lines(ts.drop_last()) + target_line(ts.last())
    }
}

/// The confirmation prompt's listing of what is about to happen.
pub open spec fn prompt_text(action: Seq<char>, ts: Seq<ResolvedView>) -> Seq<char> {
    "About to "@ + action + " on "@ + dec(ts.len()) + " device(s):"@ + target_lines(ts)
}

/// The text `--dry-run` shows for an action.
pub open spec fn plan_text_of(action: Seq<char>, ts: Seq<ResolvedView>) -> Seq<char> {
    "[dry-run] would "@ + action + " on "@ + dec(ts.len()) + " device(s):"@ + target_lines(ts)
}

fn targets_text(targets: &[Resolved]) -> (r: String)
    ensures
        r@ == target_lines(resolved_view(targets@)),
{
    let ghost ts = resolved_view(targets@);
    let mut out = String::new();
    let mut i: usize = 0;
    while i < targets.len()
        invariant
            i <= targets.len(),
            ts == resolved_view(targets@),
            out@ == target_lines(ts.take(i as int)),
        decreases targets.len() - i,
    {
        let t = &targets[i];
        out.append("\n  - ");
        out.append(t.label.as_str());
        out.append(" (");
        out.append(t.addr.host.as_str());
        out.append(")");
        proof {
            let s = ts.take(i + 1);
            assert(s.drop_last() =~= ts.take(i as int));
            assert(s.last() == t@);
        }
        i = i + 1;
    }
    assert(ts.take(targets.len() as int) =~= ts);
    out
}

/// The listing shown before asking to confirm an action.
pub fn confirm_prompt(action: &str, targets: &[Resolved]) -> (r: String)
    ensures
        r@ == prompt_text(action@, resolved_view(targets@)),
{
    let mut out = String::from_str("About to ");
    out.append(action);
    out.append(" on ");
    out.append(dec_string(targets.len() as u64).as_str());
    out.append(" device(s):");
    out.append(targets_text(targets).as_str());
    out
}

/// A `--dry-run` plan in text: the intended action and the resolved targets.
pub fn plan_text(action: &str, targets: &[Resolved]) -> (r: String)
    ensures
        r@ == plan_text_of(action@, resolved_view(targets@)),
{
    let mut out = String::from_str("[dry-run] would ");
    out.append(action);
    out.append(" on ");
    out.append(dec_string(targets.len() as u64).as_str());
    out.append(" device(s):");
    out.append(targets_text(targets).as_str());
    out
}

/// A member of a JSON object in compact text: the quoted key, `:`, the value's text.
pub open spec fn member(key: Seq<char>, value: Seq<char>) -> Seq<char> {
    quoted(key) + seq![':'] + value
}

/// One target in a JSON plan.
pub open spec fn target_json(t: ResolvedView) -> Seq<char> {
    seq!['{'] + member("host"@, quoted(t.addr.host)) + seq![','] + member("name"@, quoted(t.label))
        + seq!['}']
}

pub open spec fn targets_json(ts: Seq<ResolvedView>) -> Seq<char>
    decreases ts.len(),
{
    if ts.len() == 0 {
        Seq::empty()
    } else if ts.len() == 1 {
        target_json(ts[0])
    } else {
        targets_json(ts.drop_last()) + seq![','] + target_json(ts.last())
    }
}

/// The JSON `--dry-run` shows for an action, as compact text (members in key order).
pub open spec fn plan_json_text(action: Seq<char>, ts: Seq<ResolvedView>) -> Seq<char> {
    seq!['{'] + member("action"@, quoted(action)) + seq![','] + member("dry_run"@, "true"@)
        + seq![','] + member("targets"@, seq!['['] + targets_json(ts) + seq![']']) + seq!['}']
}

fn text_json(s: &str) -> (r: Json)
    ensures
        compact(r) == quoted(s@),
{
    Json::Str(String::from_str(s))
}

/// A JSON object of two members.
fn object2(k1: &str, v1: Json, k2: &str, v2: Json) -> (r: Json)
    ensures
        compact(r) == seq!['{'] + member(k1@, compact(v1)) + seq![','] + member(k2@, compact(v2))
            + seq!['}'],
{
    let ghost c1 = compact(v1);
    let ghost c2 = compact(v2);
    let mut es: Vec<(String, Json)> = Vec::new();
    es.push((String::from_str(k1), v1));
    es.push((String::from_str(k2), v2));
    let r = Json::Object(es);
    proof {
        let s = es@;
        assert(s.drop_last().len() == 1);
        assert(s.drop_last()[0] == s[0]);
        assert(crate::json::compact_members(s.drop_last()) == quoted(k1@) + seq![':'] + c1);
        assert(compact(r) =~= seq!['{'] + member(k1@, c1) + seq![','] + member(k2@, c2) + seq![
            '}',
        ]);
    }
    r
}

/// A JSON object of three members.
fn object3(k1: &str, v1: Json, k2: &str, v2: Json, k3: &str, v3: Json) -> (r: Json)
    ensures
        compact(r) == seq!['{'] + member(k1@, compact(v1)) + seq![','] + member(k2@, compact(v2))
            + seq![','] + member(k3@, compact(v3)) + seq!['}'],
{
    let ghost c1 = compact(v1);
    let ghost c2 = compact(v2);
    let ghost c3 = compact(v3);
    let mut es: Vec<(String, Json)> = Vec::new();
    es.push((String::from_str(k1), v1));
    es.push((String::from_str(k2), v2));
    es.push((String::from_str(k3), v3));
    let r = Json::Object(es);
    proof {
        let s = es@;
        let s2 = s.drop_last();
        let s1 = s2.drop_last();
        assert(s1.len() == 1 && s1[0] == s[0]);
        assert(s2.len() == 2 && s2.last() == s[1]);
        assert(crate::json::compact_members(s1) == quoted(k1@) + seq![':'] + c1);
        assert(crate::json::compact_members(s2) == crate::json::compact_members(s1) + seq![',']
            + quoted(k2@) + seq![':'] + c2);
        assert(compact(r) =~= seq!['{'] + member(k1@, c1) + seq![','] + member(k2@, c2) + seq![
            ',',
        ] + member(k3@, c3) + seq!['}']);
    }
    r
}

/// A `--dry-run` plan as JSON: `dry_run`, the action and the resolved targets.
pub fn plan_json(action: &str, targets: &[Resolved]) -> (r: Json)
    ensures
        compact(r) == plan_json_text(action@, resolved_view(targets@)),
{
    let ghost ts = resolved_view(targets@);
    let mut items: Vec<Json> = Vec::new();
    let mut i: usize = 0;
    while i < targets.len()
        invariant
            i <= targets.len(),
            items.len() == i,
            ts == resolved_view(targets@),
            crate::json::compact_items(items@) == targets_json(ts.take(i as int)),
        decreases targets.len() - i,
    {
        let t = &targets[i];
        let item = object2(
            "host",
            text_json(t.addr.host.as_str()),
            "name",
            text_json(t.label.as_str()),
        );
        let ghost iv = item;
        let ghost before = items@;
        items.push(item);
        proof {
            let s = ts.take(i + 1);
            assert(s.drop_last() =~= ts.take(i as int));
            assert(s.last() == t@);
            assert(compact(iv) == target_json(t@));
            assert(items@.drop_last() =~= before);
            assert(items@.last() == iv);
            if i == 0 {
                assert(s[0] == t@);
                assert(items@[0] == iv);
            }
        }
        i = i + 1;
    }
    assert(ts.take(targets.len() as int) =~= ts);
    let arr = Json::Array(items);
    assert(compact(arr) == seq!['['] + targets_json(ts) + seq![']']);
    object3("action", text_json(action), "dry_run", Json::Bool(true), "targets", arr)
}

/// A `str::lines` line: a `\r` before the line's `\n` is not part of it.
pub open spec fn strip_cr(l: Seq<char>) -> Seq<char> {
    if l.len() > 0 && l.last() == '\r' {
        l.drop_last()
    } else {
        l
    }
}

/// `str::lines`: the text split at `\n` (a `\r` before it dropped); a final line
/// ending adds no empty line.
pub open spec fn lines_of(s: Seq<char>) -> Seq<Seq<char>>
    decreases s.len(),
{
    if s.len() == 0 {
        Seq::empty()
    } else {
        let p = char_pos(s, '\n');
        if p < s.len() {
            seq![strip_cr(s.take(p as int))] + lines_of(s.skip(p + 1 as int))
        } else {
            seq![s]
        }
    }
}

/// Lines each indented by two spaces, joined by `\n`.
pub open spec fn indented(ls: Seq<Seq<char>>) -> Seq<char>
    decreases ls.len(),
{
    if ls.len() == 0 {
        Seq::empty()
    } else if ls.len() == 1 {
        "  "@ + ls[0]
    } else {
        indented(ls.drop_last()) + "\n"@ + "  "@ + ls.last()
    }
}

fn lines_exec(s: &[char]) -> (r: Vec<Vec<char>>)
    ensures
        views(r@) == lines_of(s@),
    decreases s.len(),
{
    if s.len() == 0 {
        let r: Vec<Vec<char>> = Vec::new();
        assert(views(r@) =~= Seq::<Seq<char>>::empty());
        return r;
    }
    let p = find_char(s, '\n');
    if p < s.len() {
        let mut end = p;
        if p > 0 && s[p - 1] == '\r' {
            end = p - 1;
        }
        let line = slice_vec(s, 0, end);
        assert(line@ =~= strip_cr(s@.take(p as int)));
        let rest = slice_vec(s, p + 1, s.len());
        assert(rest@ =~= s@.skip(p + 1));
        let mut tail = lines_exec(rest.as_slice());
        let mut r: Vec<Vec<char>> = Vec::new();
        r.push(line);
        let ghost first = r@;
        let ghost tl = tail@;
        r.append(&mut tail);
        assert(r@ == first + tl);
        assert(views(r@) =~= seq![strip_cr(s@.take(p as int))] + lines_of(s@.skip(p + 1)));
        r
    } else {
        let line = slice_vec(s, 0, s.len());
        assert(line@ =~= s@);
        let mut r: Vec<Vec<char>> = Vec::new();
        r.push(line);
        assert(views(r@) =~= seq![s@]);
        r
    }
}

/// Indents every line of a text by two spaces.
pub fn indent(s: &str) -> (r: String)
    ensures
        r@ == indented(lines_of(s@)),
{
    let ls = lines_exec(to_chars(s).as_slice());
    let ghost lv = views(ls@);
    let mut out = String::new();
    let mut i: usize = 0;
    while i < ls.len()
        invariant
            i <= ls.len(),
            lv == views(ls@),
            out@ == indented(lv.take(i as int)),
        decreases ls.len() - i,
    {
        if i > 0 {
            out.append("\n");
        }
        out.append("  ");
        let line = crate::text::string_of(ls[i].as_slice());
        out.append(line.as_str());
        proof {
            let t = lv.take(i + 1);
            assert(t.drop_last() =~= lv.take(i as int));
            assert(t.last() == ls@[i as int]@);
            if i == 0 {
                assert(t[0] == ls@[0]@);
            }
        }
        i = i + 1;
    }
    assert(lv.take(ls.len() as int) =~= lv);
    out
}

/// `power` for the primary relay (`None` or `0`), `powerN` for relay N.
pub open spec fn relay_desc_of(relay: Option<u8>) -> Seq<char> {
    match relay {
        None => "power"@,
        Some(n) => relay_label(n),
    }
}

/// Names the relay an action is about.
pub fn relay_desc(relay: Option<u8>) -> (r: String)
    ensures
        r@ == relay_desc_of(relay),
{
    let mut s = String::from_str("power");
    match relay {
        None => {},
        Some(n) => if n != 0 {
            s.append(dec_string(n as u64).as_str());
        },
    }
    s
}

/// A setting name is a single command word: not empty, with no whitespace and no
/// `;`.
pub open spec fn single_word(s: Seq<char>) -> bool {
    s.len() > 0 && forall|i: int| 0 <= i < s.len() ==> !is_ws(#[trigger] s[i]) && s[i] != ';'
}

/// Which settings `config` accepts: a single command word that is not destructive.
pub open spec fn setting_check(setting: Seq<char>) -> Result<(), ErrorView> {
    if !single_word(setting) {
        Err(
            ErrorView::Usage(
                "`"@ + setting
                    + "` is not a single setting name; use `console` (guarded) for commands with arguments or Backlog"@,
            ),
        )
    } else {
        match classification(setting) {
            HazardView::Destructive(reason) => Err(
                ErrorView::Usage(
                    "refusing `config` on a destructive command ("@ + reason
                        + "); use `console`, which guards it"@,
                ),
            ),
            _ => Ok(()),
        }
    }
}

/// A setting must be a single command word, never a multi-word command or a
/// `Backlog`. This stops `config get "Backlog Power OFF; Reset 1"` from smuggling a
/// destructive command past the console guardrails; `console` (which is classified
/// and guarded) is for anything with arguments.
pub fn validate_setting(setting: &str) -> (r: Result<(), Error>)
    ensures
        match r {
            Ok(()) => setting_check(setting@) == Ok::<(), ErrorView>(()),
            Err(e) => setting_check(setting@) == Err::<(), ErrorView>(e@),
        },
{
    let cs = to_chars(setting);
    let mut ok = cs.len() > 0;
    let mut i: usize = 0;
    while i < cs.len()
        invariant
            i <= cs.len(),
            cs@ == setting@,
            ok == (cs.len() > 0 && forall|j: int| 0 <= j < i ==> !is_ws(#[trigger] cs@[j]) && cs@[j] != ';'),
        decreases cs.len() - i,
    {
        if is_ws_char(cs[i]) || cs[i] == ';' {
            ok = false;
        }
        i = i + 1;
    }
    if !ok {
        let mut m = String::from_str("`");
        m.append(setting);
        m.append(
            "` is not a single setting name; use `console` (guarded) for commands with arguments or Backlog",
        );
        return Err(Error::Usage { message: m });
    }
    match classify(setting) {
        Hazard::Destructive(reason) => {
            let mut m = String::from_str("refusing `config` on a destructive command (");
            m.append(reason.as_str());
            m.append("); use `console`, which guards it");
            Err(Error::Usage { message: m })
        },
        _ => Ok(()),
    }
}

/// A label made safe as a file name: ASCII letters and digits kept, every other
/// character replaced by `_`.
pub open spec fn sanitized(label: Seq<char>) -> Seq<char> {
    label.map_values(
        |c: char|
            if ('a' <= c <= 'z') || ('A' <= c <= 'Z') || ('0' <= c <= '9') {
                c
            } else {
                '_'
            },
    )
}

/// Makes a device label safe to use as a file name.
pub fn sanitize(label: &str) -> (r: String)
    ensures
        r@ == sanitized(label@),
{
    let cs = to_chars(label);
    let mut out: Vec<char> = Vec::new();
    let mut i: usize = 0;
    while i < cs.len()
        invariant
            i <= cs.len(),
            cs@ == label@,
            out@ == sanitized(label@).take(i as int),
        decreases cs.len() - i,
    {
        let c = cs[i];
        if ('a' <= c && c <= 'z') || ('A' <= c && c <= 'Z') || ('0' <= c && c <= '9') {
            out.push(c);
        } else {
            out.push('_');
        }
        assert(out@ =~= sanitized(label@).take(i + 1));
        i = i + 1;
    }
    assert(sanitized(label@).take(cs.len() as int) =~= sanitized(label@));
    crate::text::string_of(out.as_slice())
}

/// One device's outcome of a command: its label and host, the JSON value and the
/// text that report it, or the error it met.
#[derive(Debug)]
pub struct PerDevice {
    pub label: String,
    pub host: String,
    pub value: Json,
    pub text: String,
    pub error: Option<Error>,
}

/// A device's outcome, with the value as its compact JSON text.
pub struct PerDeviceView {
    pub label: Seq<char>,
    pub host: Seq<char>,
    pub value: Seq<char>,
    pub text: Seq<char>,
    pub error: Option<ErrorView>,
}

impl View for PerDevice {
    type V = PerDeviceView;

    open spec fn view(&self) -> PerDeviceView {
        PerDeviceView {
            label: self.label@,
            host: self.host@,
            value: compact(self.value),
            text: self.text@,
            error: match self.error {
                Some(e) => Some(e@),
                None => None,
            },
        }
    }
}

pub open spec fn outcomes_view(v: Seq<PerDevice>) -> Seq<PerDeviceView> {
    v.map_values(|p: PerDevice| p@)
}

/// A device whose request failed: value `null`, no text.
pub open spec fn failed_on(t: ResolvedView, e: ErrorView) -> PerDeviceView {
    PerDeviceView { label: t.label, host: t.addr.host, value: "null"@, text: Seq::empty(), error: Some(e) }
}

/// A device whose request succeeded.
pub open spec fn done_on(t: ResolvedView, value: Seq<char>, text: Seq<char>) -> PerDeviceView {
    PerDeviceView { label: t.label, host: t.addr.host, value, text, error: None }
}

/// The outcome of a command answered by a JSON reply: the reply, shown after the
/// device's label.
pub open spec fn reply_outcome_of(t: ResolvedView, reply: Result<Json, ErrorView>) -> PerDeviceView {
    match reply {
        Ok(v) => done_on(t, compact(v), t.label + ": "@ + compact(v)),
        Err(e) => failed_on(t, e),
    }
}

/// The outcome of applying a template.
pub open spec fn applied_outcome_of(t: ResolvedView, reply: Result<Json, ErrorView>) -> PerDeviceView {
    match reply {
        Ok(v) => done_on(t, compact(v), t.label + ": template applied"@),
        Err(e) => failed_on(t, e),
    }
}

/// The outcome of setting a relay: its index and new state.
pub open spec fn power_outcome_of(t: ResolvedView, relay: Option<u8>, r: Result<RelayView, ErrorView>) -> PerDeviceView {
    match r {
        Ok(x) => done_on(
            t,
            seq!['{'] + member("relay"@, dec(x.index as nat)) + seq![','] + member(
                "state"@,
                quoted(relay_state_name(x.state)),
            ) + seq!['}'],
            t.label + ": "@ + relay_desc_of(relay) + " -> "@ + relay_state_name(x.state),
        ),
        Err(e) => failed_on(t, e),
    }
}

/// The outcome of a firmware check: the installed version.
pub open spec fn firmware_outcome_of(t: ResolvedView, r: Result<Seq<char>, ErrorView>) -> PerDeviceView {
    match r {
        Ok(v) => done_on(
            t,
            seq!['{'] + member("firmware"@, quoted(v)) + seq!['}'],
            t.label + ": "@ + v,
        ),
        Err(e) => failed_on(t, e),
    }
}

/// The outcome of a firmware update: the upgrade has started.
pub open spec fn update_outcome_of(t: ResolvedView, r: Result<Json, ErrorView>) -> PerDeviceView {
    match r {
        Ok(_) => done_on(
            t,
            seq!['{'] + member("upgrade"@, quoted("started"@)) + seq!['}'],
            t.label + ": upgrade started"@,
        ),
        Err(e) => failed_on(t, e),
    }
}

/// The outcome of a backup: the file written and its size.
pub open spec fn backup_outcome_of(t: ResolvedView, r: Result<(u64, Seq<char>), ErrorView>) -> PerDeviceView {
    match r {
        Ok((n, p)) => done_on(
            t,
            seq!['{'] + member("bytes"@, dec(n as nat)) + seq![','] + member("file"@, quoted(p))
                + seq!['}'],
            t.label + ": wrote "@ + p + " ("@ + dec(n as nat) + " bytes)"@,
        ),
        Err(e) => failed_on(t, e),
    }
}

/// The outcome of a read command whose value and text were made from the result.
pub open spec fn read_outcome_of(t: ResolvedView, r: Result<(Seq<char>, Seq<char>), ErrorView>) -> PerDeviceView {
    match r {
        Ok((v, text)) => done_on(t, v, text),
        Err(e) => failed_on(t, e),
    }
}

fn failure(t: &Resolved, e: Error) -> (r: PerDevice)
    ensures
        r@ == failed_on(t@, e@),
{
    let r = PerDevice {
        label: t.label.clone(),
        host: t.addr.host.clone(),
        value: Json::Null,
        text: String::new(),
        error: Some(e),
    };
    assert(r@.text =~= Seq::<char>::empty());
    r
}

fn success(t: &Resolved, value: Json, text: String) -> (r: PerDevice)
    ensures
        r@ == done_on(t@, compact(value), text@),
{
    PerDevice { label: t.label.clone(), host: t.addr.host.clone(), value, text, error: None }
}

fn labelled(t: &Resolved, rest: &str) -> (r: String)
    ensures
        r@ == t@.label + rest@,
{
    let mut s = t.label.clone();
    s.append(rest);
    s
}

/// The outcome of a command answered by a JSON reply.
pub fn reply_outcome(t: &Resolved, reply: Result<Json, Error>) -> (r: PerDevice)
    ensures
        r@ == reply_outcome_of(t@, reply_view(reply)),
{
    match reply {
        Ok(v) => {
            let mut text = labelled(t, ": ");
            text.append(to_compact_string(&v).as_str());
            success(t, v, text)
        },
        Err(e) => failure(t, e),
    }
}

/// The outcome of applying a template.
pub fn applied_outcome(t: &Resolved, reply: Result<Json, Error>) -> (r: PerDevice)
    ensures
        r@ == applied_outcome_of(t@, reply_view(reply)),
{
    match reply {
        Ok(v) => success(t, v, labelled(t, ": template applied")),
        Err(e) => failure(t, e),
    }
}

/// The outcome of setting a relay.
pub fn power_outcome(t: &Resolved, relay: Option<u8>, reply: Result<Relay, Error>) -> (r: PerDevice)
    ensures
        r@ == power_outcome_of(t@, relay, relay_result_view(reply)),
{
    match reply {
        Ok(x) => {
            let value = object2(
                "relay",
                Json::Number(dec_string(x.index as u64)),
                "state",
                text_json(x.state.as_str()),
            );
            let mut text = labelled(t, ": ");
            text.append(relay_desc(relay).as_str());
            text.append(" -> ");
            text.append(x.state.as_str());
            success(t, value, text)
        },
        Err(e) => failure(t, e),
    }
}

/// The outcome of a firmware check.
pub fn firmware_outcome(t: &Resolved, reply: Result<String, Error>) -> (r: PerDevice)
    ensures
        r@ == firmware_outcome_of(t@, string_result_view(reply)),
{
    match reply {
        Ok(v) => {
            let value = object1("firmware", text_json(v.as_str()));
            let mut text = labelled(t, ": ");
            text.append(v.as_str());
            success(t, value, text)
        },
        Err(e) => failure(t, e),
    }
}

/// The outcome of a firmware update.
pub fn update_outcome(t: &Resolved, reply: Result<Json, Error>) -> (r: PerDevice)
    ensures
        r@ == update_outcome_of(t@, reply_view(reply)),
{
    match reply {
        Ok(_) => success(
            t,
            object1("upgrade", text_json("started")),
            labelled(t, ": upgrade started"),
        ),
        Err(e) => failure(t, e),
    }
}

pub open spec fn written_view(r: Result<(u64, String), Error>) -> Result<(u64, Seq<char>), ErrorView> {
    match r {
        Ok((n, p)) => Ok((n, p@)),
        Err(e) => Err(e@),
    }
}

/// The outcome of a backup, given the size and path of the file written.
pub fn backup_outcome(t: &Resolved, written: Result<(u64, String), Error>) -> (r: PerDevice)
    ensures
        r@ == backup_outcome_of(t@, written_view(written)),
{
    match written {
        Ok((n, p)) => {
            let value = object2("bytes", Json::Number(dec_string(n)), "file", text_json(p.as_str()));
            let mut text = labelled(t, ": wrote ");
            text.append(p.as_str());
            text.append(" (");
            text.append(dec_string(n).as_str());
            text.append(" bytes)");
            success(t, value, text)
        },
        Err(e) => failure(t, e),
    }
}

pub open spec fn read_view(r: Result<(Json, String), Error>) -> Result<(Seq<char>, Seq<char>), ErrorView> {
    match r {
        Ok((v, t)) => Ok((compact(v), t@)),
        Err(e) => Err(e@),
    }
}

/// The outcome of a read command, given the value and text made from its result.
pub fn read_outcome(t: &Resolved, result: Result<(Json, String), Error>) -> (r: PerDevice)
    ensures
        r@ == read_outcome_of(t@, read_view(result)),
{
    match result {
        Ok((v, text)) => success(t, v, text),
        Err(e) => failure(t, e),
    }
}

/// A JSON object of one member.
fn object1(k: &str, v: Json) -> (r: Json)
    ensures
        compact(r) == seq!['{'] + member(k@, compact(v)) + seq!['}'],
{
    let ghost c = compact(v);
    let mut es: Vec<(String, Json)> = Vec::new();
    es.push((String::from_str(k), v));
    let r = Json::Object(es);
    assert(compact(r) =~= seq!['{'] + member(k@, c) + seq!['}']);
    r
}

/// A command's report in one of the output formats.
#[derive(Debug)]
pub enum Rendered {
    Text(String),
    Json(Json),
}

/// A report, with JSON as its compact text.
pub enum RenderedView {
    Text(Seq<char>),
    Json(Seq<char>),
}

impl View for Rendered {
    type V = RenderedView;

    open spec fn view(&self) -> RenderedView {
        match self {
            Rendered::Text(s) => RenderedView::Text(s@),
            Rendered::Json(j) => RenderedView::Json(compact(*j)),
        }
    }
}

/// What a command reports: one device's result, or the results of several with the
/// exit code of the most severe failure.
#[derive(Debug)]
pub enum Report {
    One(Rendered),
    Many { rendered: Rendered, exit_code: i32 },
}

pub enum ReportView {
    One(RenderedView),
    Many(RenderedView, i32),
}

impl View for Report {
    type V = ReportView;

    open spec fn view(&self) -> ReportView {
        match self {
            Report::One(r) => ReportView::One(r@),
            Report::Many { rendered, exit_code } => ReportView::Many(rendered@, *exit_code),
        }
    }
}

pub open spec fn report_view(r: Result<Report, Error>) -> Result<ReportView, ErrorView> {
    match r {
        Ok(x) => Ok(x@),
        Err(e) => Err(e@),
    }
}

/// The exit code of the most severe failure among the outcomes, `0` when none
/// failed.
pub open spec fn worst_exit(rs: Seq<PerDeviceView>) -> i32
    decreases rs.len(),
{
    if rs.len() == 0 {
        0
    } else {
        let w = worst_exit(rs.drop_last());
        match rs.last().error {
            Some(e) => if exit_code_of(e) > w {
                exit_code_of(e)
            } else {
                w
            },
            None => w,
        }
    }
}

/// One device's outcome in a multi-device JSON report.
pub open spec fn outcome_json(p: PerDeviceView) -> Seq<char> {
    match p.error {
        Some(e) => seq!['{'] + member(
            "error"@,
            seq!['{'] + member("kind"@, quoted(kind_name(e))) + seq![','] + member(
                "message"@,
                quoted(message_of(e)),
            ) + seq!['}'],
        ) + seq![','] + member("host"@, quoted(p.host)) + seq![','] + member("name"@, quoted(p.label))
            + seq!['}'],
        None => seq!['{'] + member("host"@, quoted(p.host)) + seq![','] + member(
            "name"@,
            quoted(p.label),
        ) + seq![','] + member("result"@, p.value) + seq!['}'],
    }
}

pub open spec fn outcomes_json(rs: Seq<PerDeviceView>) -> Seq<char>
    decreases rs.len(),
{
    if rs.len() == 0 {
        Seq::empty()
    } else if rs.len() == 1 {
        outcome_json(rs[0])
    } else {
        outcomes_json(rs.drop_last()) + seq![','] + outcome_json(rs.last())
    }
}

/// One device's outcome in a multi-device text report: its error, or its text
/// indented under its label.
pub open spec fn outcome_block(p: PerDeviceView) -> Seq<char> {
    match p.error {
        Some(e) => p.label + ": error: "@ + message_of(e),
        None => p.label + ":\n"@ + indented(lines_of(p.text)),
    }
}

pub open spec fn outcome_blocks(rs: Seq<PerDeviceView>) -> Seq<char>
    decreases rs.len(),
{
    if rs.len() == 0 {
        Seq::empty()
    } else if rs.len() == 1 {
        outcome_block(rs[0])
    } else {
        outcome_blocks(rs.drop_last()) + "\n\n"@ + outcome_block(rs.last())
    }
}

/// The report of a command's outcomes. A single device's failure is the command's
/// error; several devices each report their outcome, and the exit code is that of
/// the most severe failure.
pub open spec fn finish_of(format: OutputFormat, rs: Seq<PerDeviceView>) -> Result<ReportView, ErrorView> {
    if rs.len() == 1 {
        match rs[0].error {
            Some(e) => Err(e),
            None => Ok(
                ReportView::One(
                    if format == OutputFormat::Json {
                        RenderedView::Json(rs[0].value)
                    } else {
                        RenderedView::Text(rs[0].text)
                    },
                ),
            ),
        }
    } else {
        Ok(
            ReportView::Many(
                if format == OutputFormat::Json {
                    RenderedView::Json(seq!['['] + outcomes_json(rs) + seq![']'])
                } else {
                    RenderedView::Text(outcome_blocks(rs))
                },
                worst_exit(rs),
            ),
        )
    }
}

fn outcome_json_value(p: PerDevice) -> (r: Json)
    ensures
        compact(r) == outcome_json(p@),
{
    let ghost pv = p@;
    match p.error {
        Some(e) => {
            let err = object2(
                "kind",
                text_json(e.kind()),
                "message",
                text_json(e.message().as_str()),
            );
            object3(
                "error",
                err,
                "host",
                text_json(p.host.as_str()),
                "name",
                text_json(p.label.as_str()),
            )
        },
        None => {
            let host = text_json(p.host.as_str());
            let name = text_json(p.label.as_str());
            object3("host", host, "name", name, "result", p.value)
        },
    }
}

fn outcome_block_text(p: &PerDevice) -> (r: String)
    ensures
        r@ == outcome_block(p@),
{
    match &p.error {
        Some(e) => {
            let mut s = p.label.clone();
            s.append(": error: ");
            s.append(e.message().as_str());
            s
        },
        None => {
            let mut s = p.label.clone();
            s.append(":\n");
            s.append(indent(p.text.as_str()).as_str());
            s
        },
    }
}

/// The exit code of the most severe failure among the outcomes.
pub fn worst_exit_code(results: &[PerDevice]) -> (r: i32)
    ensures
        r == worst_exit(outcomes_view(results@)),
        0 <= r <= 9,
{
    let ghost rs = outcomes_view(results@);
    let mut exit: i32 = 0;
    let mut i: usize = 0;
    while i < results.len()
        invariant
            i <= results.len(),
            rs == outcomes_view(results@),
            exit == worst_exit(rs.take(i as int)),
            0 <= exit <= 9,
        decreases results.len() - i,
    {
        proof {
            let t = rs.take(i + 1);
            assert(t.drop_last() =~= rs.take(i as int));
            assert(t.last() == results@[i as int]@);
        }
        if let Some(e) = &results[i].error {
            let c = e.exit_code();
            if c > exit {
                exit = c;
            }
        }
        i = i + 1;
    }
    assert(rs.take(results.len() as int) =~= rs);
    exit
}

fn outcomes_array(results: Vec<PerDevice>) -> (r: Json)
    ensures
        compact(r) == seq!['['] + outcomes_json(outcomes_view(results@)) + seq![']'],
{
    let ghost rs = outcomes_view(results@);
    let n: usize = results.len();
    let mut items: Vec<Json> = Vec::new();
    let mut rest = results;
    let mut k: usize = 0;
    while rest.len() > 0
        invariant
            k + rest.len() == n,
            rs.len() == n,
            items.len() == k,
            outcomes_view(rest@) == rs.skip(k as int),
            crate::json::compact_items(items@) == outcomes_json(rs.take(k as int)),
        decreases rest.len(),
    {
        let ghost before_rest = rest@;
        let p = rest.remove(0);
        proof {
            assert(p@ == outcomes_view(before_rest)[0]);
            assert(rest@ =~= before_rest.subrange(1, before_rest.len() as int));
            assert forall|j: int| 0 <= j < rest@.len() implies outcomes_view(rest@)[j] == rs.skip(
                k + 1,
            )[j] by {
                assert(rest@[j] == before_rest[j + 1]);
                assert(outcomes_view(before_rest)[j + 1] == rs.skip(k as int)[j + 1]);
            }
            assert(outcomes_view(rest@) =~= rs.skip(k + 1));
        }
        let item = outcome_json_value(p);
        let ghost iv = item;
        let ghost before = items@;
        items.push(item);
        proof {
            let t = rs.take(k + 1);
            assert(t.drop_last() =~= rs.take(k as int));
            assert(t.last() == rs[k as int]);
            assert(items@.drop_last() =~= before);
            assert(items@.last() == iv);
            if k == 0 {
                assert(items@[0] == iv);
                assert(t[0] == rs[0]);
            }
        }
        k = k + 1;
    }
    assert(rs.take(n as int) =~= rs);
    let arr = Json::Array(items);
    assert(compact(arr) == seq!['['] + outcomes_json(rs) + seq![']']);
    arr
}

fn outcomes_text(results: &[PerDevice]) -> (r: String)
    ensures
        r@ == outcome_blocks(outcomes_view(results@)),
{
    let ghost rs = outcomes_view(results@);
    let mut out = String::new();
    let mut j: usize = 0;
    while j < results.len()
        invariant
            j <= results.len(),
            rs == outcomes_view(results@),
            out@ == outcome_blocks(rs.take(j as int)),
        decreases results.len() - j,
    {
        if j > 0 {
            out.append("\n\n");
        }
        out.append(outcome_block_text(&results[j]).as_str());
        proof {
            let t = rs.take(j + 1);
            assert(t.drop_last() =~= rs.take(j as int));
            assert(t.last() == results@[j as int]@);
            if j == 0 {
                assert(t[0] == results@[0]@);
            }
        }
        j = j + 1;
    }
    assert(rs.take(results.len() as int) =~= rs);
    out
}

/// Turns per-device outcomes into a command's report.
pub fn finish(format: OutputFormat, results: Vec<PerDevice>) -> (r: Result<Report, Error>)
    ensures
        report_view(r) == finish_of(format, outcomes_view(results@)),
{
    let ghost rs = outcomes_view(results@);
    let mut results = results;
    if results.len() == 1 {
        let p = results.pop().unwrap();
        assert(p@ == rs[0]);
        if let Some(e) = p.error {
            return Err(e);
        }
        return match format {
            OutputFormat::Json => Ok(Report::One(Rendered::Json(p.value))),
            OutputFormat::Text => Ok(Report::One(Rendered::Text(p.text))),
        };
    }
    let exit = worst_exit_code(results.as_slice());
    let rendered = match format {
        OutputFormat::Json => Rendered::Json(outcomes_array(results)),
        OutputFormat::Text => Rendered::Text(outcomes_text(results.as_slice())),
    };
    Ok(Report::Many { rendered, exit_code: exit })
}

/// Appends a member to an object's members.
fn push_member(es: &mut Vec<(String, Json)>, k: &str, v: Json)
    ensures
        crate::json::compact_members(final(es)@) == if old(es)@.len() == 0 {
            member(k@, compact(v))
        } else {
            crate::json::compact_members(old(es)@) + seq![','] + member(k@, compact(v))
        },
{
    let ghost before = es@;
    let ghost c = compact(v);
    es.push((String::from_str(k), v));
    proof {
        assert(es@.drop_last() =~= before);
        if before.len() == 0 {
            assert(es@[0] == es@.last());
        }
    }
}

/// Every outcome is, for the target in the same place, one that `each` allows.
pub open spec fn each_target(
    ts: Seq<ResolvedView>,
    outs: Seq<PerDeviceView>,
    each: spec_fn(ResolvedView, PerDeviceView) -> bool,
) -> bool {
    outs.len() == ts.len() && forall|i: int| 0 <= i < ts.len() ==> #[trigger] each(ts[i], outs[i])
}

/// A `--dry-run` plan in the chosen format.
pub open spec fn plan_rendered(format: OutputFormat, action: Seq<char>, ts: Seq<ResolvedView>) -> RenderedView {
    if format == OutputFormat::Json {
        RenderedView::Json(plan_json_text(action, ts))
    } else {
        RenderedView::Text(plan_text_of(action, ts))
    }
}

/// The report of a read command over resolved targets: the resolution's error, the
/// plan under `--dry-run` (nothing is contacted), or the finished outcomes of every
/// target, each as `each` allows.
pub open spec fn read_report(
    format: OutputFormat,
    dry_run: bool,
    action: Seq<char>,
    targets: Result<Seq<ResolvedView>, ErrorView>,
    each: spec_fn(ResolvedView, PerDeviceView) -> bool,
    r: Result<ReportView, ErrorView>,
) -> bool {
    match targets {
        Err(e) => r == Err::<ReportView, ErrorView>(e),
        Ok(ts) => if dry_run {
            r == Ok::<ReportView, ErrorView>(ReportView::One(plan_rendered(format, action, ts)))
        } else {
            exists|outs: Seq<PerDeviceView>| #[trigger] each_target(ts, outs, each) && r == finish_of(format, outs)
        },
    }
}

pub open spec fn targets_view(t: Result<Vec<Resolved>, Error>) -> Result<Seq<ResolvedView>, ErrorView> {
    match t {
        Ok(v) => Ok(resolved_view(v@)),
        Err(e) => Err(e@),
    }
}

/// A `--dry-run` plan in the chosen format.
pub fn plan(format: OutputFormat, action: &str, targets: &[Resolved]) -> (r: Rendered)
    ensures
        r@ == plan_rendered(format, action@, resolved_view(targets@)),
{
    match format {
        OutputFormat::Json => Rendered::Json(plan_json(action, targets)),
        OutputFormat::Text => Rendered::Text(plan_text(action, targets)),
    }
}

/// The outcome of sending `command` to `target`: the report of some answer of the
/// transport to that request.
pub open spec fn queried<T: Transport>(t: T, command: Seq<char>) -> spec_fn(ResolvedView, PerDeviceView) -> bool {
    |target: ResolvedView, p: PerDeviceView|
        exists|reply: Result<Json, ErrorView>|
            #[trigger] t.answers(target.addr, command, reply) && p == reply_outcome_of(target, reply)
}

/// Sends `command` to every target and reports each reply.
pub fn query_each<T: Transport>(t: &T, targets: &[Resolved], command: &str) -> (r: Vec<PerDevice>)
    ensures
        each_target(resolved_view(targets@), outcomes_view(r@), queried(*t, command@)),
{
    let ghost ts = resolved_view(targets@);
    let ghost each = queried(*t, command@);
    let mut out: Vec<PerDevice> = Vec::new();
    let mut i: usize = 0;
    while i < targets.len()
        invariant
            i <= targets.len(),
            out.len() == i,
            ts == resolved_view(targets@),
            each == queried(*t, command@),
            forall|j: int| 0 <= j < i ==> #[trigger] each(ts[j], outcomes_view(out@)[j]),
        decreases targets.len() - i,
    {
        let target = &targets[i];
        let reply = t.command(&target.addr, command);
        let ghost rv = reply_view(reply);
        let p = reply_outcome(target, reply);
        proof {
            assert(ts[i as int] == target@);
            assert(t.answers(target@.addr, command@, rv));
            assert(each(ts[i as int], p@));
        }
        let ghost before = out@;
        out.push(p);
        proof {
            assert forall|j: int| 0 <= j < i + 1 implies #[trigger] each(
                ts[j],
                outcomes_view(out@)[j],
            ) by {
                if j < i {
                    assert(out@[j] == before[j]);
                    assert(outcomes_view(before)[j] == outcomes_view(out@)[j]);
                } else {
                    assert(out@[j] == p);
                }
            }
        }
        i = i + 1;
    }
    out
}

/// The outcome of setting a relay on `target`.
pub open spec fn powered<T: Transport>(t: T, relay: Option<u8>, action: PowerAction) -> spec_fn(
    ResolvedView,
    PerDeviceView,
) -> bool {
    |target: ResolvedView, p: PerDeviceView|
        exists|res: Result<RelayView, ErrorView>|
            #[trigger] crate::ops::power_reply(t, target.addr, relay, action, res) && p
                == power_outcome_of(target, relay, res)
}

/// Sets a relay on every target and reports each new state.
pub fn power_each<T: Transport>(t: &T, targets: &[Resolved], relay: Option<u8>, action: PowerAction) -> (r:
    Vec<PerDevice>)
    ensures
        each_target(resolved_view(targets@), outcomes_view(r@), powered(*t, relay, action)),
{
    let ghost ts = resolved_view(targets@);
    let ghost each = powered(*t, relay, action);
    let mut out: Vec<PerDevice> = Vec::new();
    let mut i: usize = 0;
    while i < targets.len()
        invariant
            i <= targets.len(),
            out.len() == i,
            ts == resolved_view(targets@),
            each == powered(*t, relay, action),
            forall|j: int| 0 <= j < i ==> #[trigger] each(ts[j], outcomes_view(out@)[j]),
        decreases targets.len() - i,
    {
        let target = &targets[i];
        let res = set_power(t, &target.addr, relay, action);
        let ghost rv = relay_result_view(res);
        let p = power_outcome(target, relay, res);
        proof {
            assert(ts[i as int] == target@);
            assert(crate::ops::power_reply(*t, target@.addr, relay, action, rv));
            assert(each(ts[i as int], p@));
        }
        let ghost before = out@;
        out.push(p);
        proof {
            assert forall|j: int| 0 <= j < i + 1 implies #[trigger] each(
                ts[j],
                outcomes_view(out@)[j],
            ) by {
                if j < i {
                    assert(out@[j] == before[j]);
                    assert(outcomes_view(before)[j] == outcomes_view(out@)[j]);
                } else {
                    assert(out@[j] == p);
                }
            }
        }
        i = i + 1;
    }
    out
}

/// The outcome of checking the firmware of `target`.
pub open spec fn checked<T: Transport>(t: T) -> spec_fn(ResolvedView, PerDeviceView) -> bool {
    |target: ResolvedView, p: PerDeviceView|
        exists|res: Result<Seq<char>, ErrorView>|
            #[trigger] crate::ops::firmware_reply(t, target.addr, res) && p == firmware_outcome_of(
                target,
                res,
            )
}

/// Reads the firmware version of every target.
pub fn firmware_each<T: Transport>(t: &T, targets: &[Resolved]) -> (r: Vec<PerDevice>)
    ensures
        each_target(resolved_view(targets@), outcomes_view(r@), checked(*t)),
{
    let ghost ts = resolved_view(targets@);
    let ghost each = checked(*t);
    let mut out: Vec<PerDevice> = Vec::new();
    let mut i: usize = 0;
    while i < targets.len()
        invariant
            i <= targets.len(),
            out.len() == i,
            ts == resolved_view(targets@),
            each == checked(*t),
            forall|j: int| 0 <= j < i ==> #[trigger] each(ts[j], outcomes_view(out@)[j]),
        decreases targets.len() - i,
    {
        let target = &targets[i];
        let res = firmware_version(t, &target.addr);
        let ghost rv = string_result_view(res);
        let p = firmware_outcome(target, res);
        proof {
            assert(ts[i as int] == target@);
            assert(crate::ops::firmware_reply(*t, target@.addr, rv));
            assert(each(ts[i as int], p@));
        }
        let ghost before = out@;
        out.push(p);
        proof {
            assert forall|j: int| 0 <= j < i + 1 implies #[trigger] each(
                ts[j],
                outcomes_view(out@)[j],
            ) by {
                if j < i {
                    assert(out@[j] == before[j]);
                    assert(outcomes_view(before)[j] == outcomes_view(out@)[j]);
                } else {
                    assert(out@[j] == p);
                }
            }
        }
        i = i + 1;
    }
    out
}

/// The outcome of updating the firmware of `target`.
pub open spec fn updated<T: Transport>(t: T, url: Option<Seq<char>>) -> spec_fn(ResolvedView, PerDeviceView) -> bool {
    |target: ResolvedView, p: PerDeviceView|
        exists|res: Result<Json, ErrorView>|
            #[trigger] crate::ops::update_reply(t, target.addr, url, res) && p == update_outcome_of(
                target,
                res,
            )
}

/// Starts a firmware update on every target.
pub fn update_each<T: Transport>(t: &T, targets: &[Resolved], url: Option<&str>) -> (r: Vec<PerDevice>)
    ensures
        each_target(
            resolved_view(targets@),
            outcomes_view(r@),
            updated(*t, crate::cli::opt_str(url)),
        ),
{
    let ghost ts = resolved_view(targets@);
    let ghost each = updated(*t, crate::cli::opt_str(url));
    let mut out: Vec<PerDevice> = Vec::new();
    let mut i: usize = 0;
    while i < targets.len()
        invariant
            i <= targets.len(),
            out.len() == i,
            ts == resolved_view(targets@),
            each == updated(*t, crate::cli::opt_str(url)),
            forall|j: int| 0 <= j < i ==> #[trigger] each(ts[j], outcomes_view(out@)[j]),
        decreases targets.len() - i,
    {
        let target = &targets[i];
        let res = crate::ops::firmware_update(t, &target.addr, url);
        let ghost rv = reply_view(res);
        let p = update_outcome(target, res);
        proof {
            assert(ts[i as int] == target@);
            assert(crate::ops::update_reply(*t, target@.addr, crate::cli::opt_str(url), rv));
            assert(each(ts[i as int], p@));
        }
        let ghost before = out@;
        out.push(p);
        proof {
            assert forall|j: int| 0 <= j < i + 1 implies #[trigger] each(
                ts[j],
                outcomes_view(out@)[j],
            ) by {
                if j < i {
                    assert(out@[j] == before[j]);
                    assert(outcomes_view(before)[j] == outcomes_view(out@)[j]);
                } else {
                    assert(out@[j] == p);
                }
            }
        }
        i = i + 1;
    }
    out
}

/// The outcome of applying a template to `target`.
pub open spec fn applied<T: Transport>(t: T, template_json: Seq<char>) -> spec_fn(ResolvedView, PerDeviceView) -> bool {
    |target: ResolvedView, p: PerDeviceView|
        exists|res: Result<Json, ErrorView>|
            #[trigger] crate::ops::template_reply(t, target.addr, template_json, res) && p
                == applied_outcome_of(target, res)
}

/// Applies a GPIO template to every target.
pub fn apply_each<T: Transport>(t: &T, targets: &[Resolved], template_json: &str) -> (r: Vec<PerDevice>)
    ensures
        each_target(resolved_view(targets@), outcomes_view(r@), applied(*t, template_json@)),
{
    let ghost ts = resolved_view(targets@);
    let ghost each = applied(*t, template_json@);
    let mut out: Vec<PerDevice> = Vec::new();
    let mut i: usize = 0;
    while i < targets.len()
        invariant
            i <= targets.len(),
            out.len() == i,
            ts == resolved_view(targets@),
            each == applied(*t, template_json@),
            forall|j: int| 0 <= j < i ==> #[trigger] each(ts[j], outcomes_view(out@)[j]),
        decreases targets.len() - i,
    {
        let target = &targets[i];
        let res = crate::ops::template_apply(t, &target.addr, template_json);
        let ghost rv = reply_view(res);
        let p = applied_outcome(target, res);
        proof {
            assert(ts[i as int] == target@);
            assert(crate::ops::template_reply(*t, target@.addr, template_json@, rv));
            assert(each(ts[i as int], p@));
        }
        let ghost before = out@;
        out.push(p);
        proof {
            assert forall|j: int| 0 <= j < i + 1 implies #[trigger] each(
                ts[j],
                outcomes_view(out@)[j],
            ) by {
                if j < i {
                    assert(out@[j] == before[j]);
                    assert(outcomes_view(before)[j] == outcomes_view(out@)[j]);
                } else {
                    assert(out@[j] == p);
                }
            }
        }
        i = i + 1;
    }
    out
}

/// `config get`: reads one setting on every target. The setting is checked first,
/// then the targets' resolution; `--dry-run` contacts nothing.
pub fn config_get<T: Transport>(
    t: &T,
    ctx: &Ctx,
    targets: Result<Vec<Resolved>, Error>,
    setting: &str,
) -> (r: Result<Report, Error>)
    ensures
        match setting_check(setting@) {
            Err(e) => report_view(r) == Err::<ReportView, ErrorView>(e),
            Ok(_) => read_report(
                ctx.format,
                ctx.dry_run,
                "read setting "@ + setting@,
                targets_view(targets),
                queried(*t, setting@),
                report_view(r),
            ),
        },
{
    match validate_setting(setting) {
        Err(e) => return Err(e),
        Ok(()) => {},
    }
    let targets = match targets {
        Err(e) => return Err(e),
        Ok(v) => v,
    };
    let mut action = String::from_str("read setting ");
    action.append(setting);
    if ctx.dry_run {
        return Ok(Report::One(plan(ctx.format, action.as_str(), targets.as_slice())));
    }
    let outs = query_each(t, targets.as_slice(), setting);
    let ghost ov = outcomes_view(outs@);
    let r = finish(ctx.format, outs);
    assert(each_target(resolved_view(targets@), ov, queried(*t, setting@)));
    r
}

/// `template get`: reads the GPIO template of every target.
pub fn template_get<T: Transport>(t: &T, ctx: &Ctx, targets: Result<Vec<Resolved>, Error>) -> (r:
    Result<Report, Error>)
    ensures
        read_report(
            ctx.format,
            ctx.dry_run,
            "read template"@,
            targets_view(targets),
            queried(*t, "Template"@),
            report_view(r),
        ),
{
    let targets = match targets {
        Err(e) => return Err(e),
        Ok(v) => v,
    };
    if ctx.dry_run {
        return Ok(Report::One(plan(ctx.format, "read template", targets.as_slice())));
    }
    let outs = query_each(t, targets.as_slice(), "Template");
    let ghost ov = outcomes_view(outs@);
    let r = finish(ctx.format, outs);
    assert(each_target(resolved_view(targets@), ov, queried(*t, "Template"@)));
    r
}

/// `firmware check`: reads the installed firmware version of every target.
pub fn firmware_check<T: Transport>(t: &T, ctx: &Ctx, targets: Result<Vec<Resolved>, Error>) -> (r:
    Result<Report, Error>)
    ensures
        read_report(
            ctx.format,
            ctx.dry_run,
            "check firmware version"@,
            targets_view(targets),
            checked(*t),
            report_view(r),
        ),
{
    let targets = match targets {
        Err(e) => return Err(e),
        Ok(v) => v,
    };
    if ctx.dry_run {
        return Ok(Report::One(plan(ctx.format, "check firmware version", targets.as_slice())));
    }
    let outs = firmware_each(t, targets.as_slice());
    let ghost ov = outcomes_view(outs@);
    let r = finish(ctx.format, outs);
    assert(each_target(resolved_view(targets@), ov, checked(*t)));
    r
}

/// The status with MQTT settings from `Status 6` in place of those of `Status 0`;
/// a no-answer keeps them, any other failure is the result.
pub open spec fn with_mqtt(s: DeviceStatusView, m: Result<Option<MqttInfoView>, ErrorView>) -> Result<
    DeviceStatusView,
    ErrorView,
> {
    match m {
        Ok(Some(x)) => Ok(DeviceStatusView { mqtt: Some(x), ..s }),
        Ok(None) => Ok(s),
        Err(ErrorView::Network(_)) => Ok(s),
        Err(e) => Err(e),
    }
}

/// The status a health check reports: the device's status, with the MQTT settings
/// of its `Status 6` reply.
pub open spec fn health_reply<T: Transport>(t: T, addr: DeviceAddrView, r: Result<DeviceStatusView, ErrorView>) -> bool {
    exists|sr: Result<DeviceStatusView, ErrorView>|
        #[trigger] status_reply(t, addr, sr) && match sr {
            Err(e) => r == Err::<DeviceStatusView, ErrorView>(e),
            Ok(s) => exists|m: Result<Option<MqttInfoView>, ErrorView>|
                #[trigger] mqtt_reply(t, addr, m) && r == with_mqtt(s, m),
        }
}

/// Reads a device's status for a health check. MQTT configuration lives in
/// `Status 6`; it is preferred, and `Status 0`'s is kept on a genuine no-answer. A
/// command-level rejection, auth or parse error is the result.
pub fn health_status<T: Transport>(t: &T, addr: &DeviceAddr) -> (r: Result<DeviceStatus, Error>)
    ensures
        health_reply(*t, addr@, result_view(r)),
{
    let sr = get_status(t, addr);
    let ghost srv = result_view(sr);
    let mut s = match sr {
        Err(e) => {
            assert(status_reply(*t, addr@, srv));
            return Err(e);
        },
        Ok(s) => s,
    };
    let ghost sv = s@;
    let m = mqtt_info(t, addr);
    let ghost mv = mqtt_result_view(m);
    assert(mqtt_reply(*t, addr@, mv));
    match m {
        Ok(Some(x)) => {
            s.mqtt = Some(x);
            assert(s@ == DeviceStatusView { mqtt: Some(x@), ..sv });
        },
        Ok(None) => {},
        Err(Error::Network { .. }) => {},
        Err(e) => {
            assert(status_reply(*t, addr@, srv));
            return Err(e);
        },
    }
    assert(status_reply(*t, addr@, srv));
    Ok(s)
}

/// An optional text as JSON: a string, or `null`.
pub open spec fn opt_text_json(o: Option<Seq<char>>) -> Seq<char> {
    match o {
        Some(s) => quoted(s),
        None => "null"@,
    }
}

/// An optional integer as JSON: a number, or `null`.
pub open spec fn opt_int_json(o: Option<i64>) -> Seq<char> {
    match o {
        Some(n) => crate::text::dec_int(n as int),
        None => "null"@,
    }
}

pub open spec fn opt_bool_json(o: Option<bool>) -> Seq<char> {
    match o {
        Some(b) => if b {
            "true"@
        } else {
            "false"@
        },
        None => "null"@,
    }
}

/// MQTT settings as JSON (members in key order).
pub open spec fn mqtt_json(m: Option<MqttInfoView>) -> Seq<char> {
    match m {
        None => "null"@,
        Some(m) => seq!['{'] + member("client"@, opt_text_json(m.client)) + seq![','] + member(
            "connected"@,
            opt_bool_json(m.connected),
        ) + seq![','] + member("host"@, opt_text_json(m.host)) + seq![','] + member(
            "port"@,
            opt_int_json(m.port),
        ) + seq![','] + member("reconnect_count"@, opt_int_json(m.reconnect_count)) + seq!['}'],
    }
}

/// The JSON of a health check (members in key order).
pub open spec fn health_json_text(s: DeviceStatusView) -> Seq<char> {
    seq!['{'] + member("firmware"@, opt_text_json(s.firmware)) + seq![','] + member(
        "mqtt"@,
        mqtt_json(s.mqtt),
    ) + seq![','] + member("online"@, "true"@) + seq![','] + member(
        "rssi"@,
        opt_int_json(s.wifi_rssi),
    ) + seq![','] + member("uptime"@, opt_text_json(s.uptime)) + seq!['}']
}

fn opt_text_value(o: &Option<String>) -> (r: Json)
    ensures
        compact(r) == opt_text_json(crate::model::opt_view(*o)),
{
    match o {
        Some(s) => text_json(s.as_str()),
        None => Json::Null,
    }
}

fn opt_int_value(o: Option<i64>) -> (r: Json)
    ensures
        compact(r) == opt_int_json(o),
{
    match o {
        Some(n) => Json::Number(crate::text::dec_int_string(n)),
        None => Json::Null,
    }
}

#[verifier::spinoff_prover]
#[verifier::rlimit(30)]
fn mqtt_value(m: &Option<crate::model::MqttInfo>) -> (r: Json)
    ensures
        compact(r) == mqtt_json(
            match *m {
                Some(x) => Some(x@),
                None => None,
            },
        ),
{
    match m {
        None => Json::Null,
        Some(m) => {
            let mut es: Vec<(String, Json)> = Vec::new();
            push_member(&mut es, "client", opt_text_value(&m.client));
            push_member(
                &mut es,
                "connected",
                match m.connected {
                    Some(b) => Json::Bool(b),
                    None => Json::Null,
                },
            );
            push_member(&mut es, "host", opt_text_value(&m.host));
            push_member(&mut es, "port", opt_int_value(m.port));
            push_member(&mut es, "reconnect_count", opt_int_value(m.reconnect_count));
            let r = Json::Object(es);
            r
        },
    }
}

/// The JSON a health check reports for a device.
pub fn health_json(s: &DeviceStatus) -> (r: Json)
    ensures
        compact(r) == health_json_text(s@),
{
    let mut es: Vec<(String, Json)> = Vec::new();
    push_member(&mut es, "firmware", opt_text_value(&s.firmware));
    push_member(&mut es, "mqtt", mqtt_value(&s.mqtt));
    push_member(&mut es, "online", Json::Bool(true));
    push_member(&mut es, "rssi", opt_int_value(s.wifi_rssi));
    push_member(&mut es, "uptime", opt_text_value(&s.uptime));
    Json::Object(es)
}

/// The outcome of a health check of `target`.
pub open spec fn healthy<T: Transport>(t: T) -> spec_fn(ResolvedView, PerDeviceView) -> bool {
    |target: ResolvedView, p: PerDeviceView|
        exists|res: Result<DeviceStatusView, ErrorView>|
            #[trigger] health_reply(t, target.addr, res) && p == read_outcome_of(
                target,
                match res {
                    Ok(s) => Ok((health_json_text(s), health_text(s))),
                    Err(e) => Err(e),
                },
            )
}

/// Checks the health of every target.
pub fn health_each<T: Transport>(t: &T, targets: &[Resolved]) -> (r: Vec<PerDevice>)
    ensures
        each_target(resolved_view(targets@), outcomes_view(r@), healthy(*t)),
{
    let ghost ts = resolved_view(targets@);
    let ghost each = healthy(*t);
    let mut out: Vec<PerDevice> = Vec::new();
    let mut i: usize = 0;
    while i < targets.len()
        invariant
            i <= targets.len(),
            out.len() == i,
            ts == resolved_view(targets@),
            each == healthy(*t),
            forall|j: int| 0 <= j < i ==> #[trigger] each(ts[j], outcomes_view(out@)[j]),
        decreases targets.len() - i,
    {
        let target = &targets[i];
        let res = health_status(t, &target.addr);
        let ghost rv = result_view(res);
        let made = match res {
            Ok(s) => Ok((health_json(&s), crate::render::health(&s))),
            Err(e) => Err(e),
        };
        let p = read_outcome(target, made);
        proof {
            assert(ts[i as int] == target@);
            assert(health_reply(*t, target@.addr, rv));
            assert(each(ts[i as int], p@));
        }
        let ghost before = out@;
        out.push(p);
        proof {
            assert forall|j: int| 0 <= j < i + 1 implies #[trigger] each(
                ts[j],
                outcomes_view(out@)[j],
            ) by {
                if j < i {
                    assert(out@[j] == before[j]);
                    assert(outcomes_view(before)[j] == outcomes_view(out@)[j]);
                } else {
                    assert(out@[j] == p);
                }
            }
        }
        i = i + 1;
    }
    out
}

/// `health`: reachability, signal, uptime, firmware and MQTT settings of every
/// target.
pub fn health<T: Transport>(t: &T, ctx: &Ctx, targets: Result<Vec<Resolved>, Error>) -> (r: Result<
    Report,
    Error,
>)
    ensures
        read_report(
            ctx.format,
            ctx.dry_run,
            "check health"@,
            targets_view(targets),
            healthy(*t),
            report_view(r),
        ),
{
    let targets = match targets {
        Err(e) => return Err(e),
        Ok(v) => v,
    };
    if ctx.dry_run {
        return Ok(Report::One(plan(ctx.format, "check health", targets.as_slice())));
    }
    let outs = health_each(t, targets.as_slice());
    let ghost ov = outcomes_view(outs@);
    let r = finish(ctx.format, outs);
    assert(each_target(resolved_view(targets@), ov, healthy(*t)));
    r
}

/// `status`: the full status of every target, each as `get_status` gives it.
pub fn status<T: Transport>(t: &T, targets: &[Resolved]) -> (r: Vec<Result<DeviceStatus, Error>>)
    ensures
        r.len() == targets.len(),
        forall|i: int|
            0 <= i < targets.len() ==> status_reply(
                *t,
                targets@[i].addr@,
                #[trigger] result_view(r@[i]),
            ),
{
    let mut out: Vec<Result<DeviceStatus, Error>> = Vec::new();
    let mut i: usize = 0;
    while i < targets.len()
        invariant
            i <= targets.len(),
            out.len() == i,
            forall|j: int|
                0 <= j < i ==> status_reply(*t, targets@[j].addr@, #[trigger] result_view(out@[j])),
        decreases targets.len() - i,
    {
        let s = get_status(t, &targets[i].addr);
        let ghost before = out@;
        out.push(s);
        proof {
            assert forall|j: int| 0 <= j < i + 1 implies status_reply(
                *t,
                targets@[j].addr@,
                #[trigger] result_view(out@[j]),
            ) by {
                if j < i {
                    assert(out@[j] == before[j]);
                }
            }
        }
        i = i + 1;
    }
    out
}

/// The action a relay command announces: the verb, then the relay.
pub fn power_action(verb: &str, relay: Option<u8>) -> (r: String)
    ensures
        r@ == verb@ + " "@ + relay_desc_of(relay),
{
    let mut s = String::from_str(verb);
    s.append(" ");
    s.append(relay_desc(relay).as_str());
    s
}

/// The action `config set` announces.
pub fn set_action(setting: &str, value: &str) -> (r: String)
    ensures
        r@ == "set "@ + setting@ + " "@ + value@,
{
    let mut s = String::from_str("set ");
    s.append(setting);
    s.append(" ");
    s.append(value);
    s
}

/// The command `config set` sends: the setting, then the value.
pub fn set_command(setting: &str, value: &str) -> (r: String)
    ensures
        r@ == setting@ + " "@ + value@,
{
    let mut s = String::from_str(setting);
    s.append(" ");
    s.append(value);
    s
}

/// The action `console` announces.
pub fn console_action(command: &str) -> (r: String)
    ensures
        r@ == "send `"@ + command@ + "`"@,
{
    let mut s = String::from_str("send `");
    s.append(command);
    s.append("`");
    s
}

/// The action a firmware update announces.
pub fn flash_action(url: Option<&str>) -> (r: String)
    ensures
        r@ == match crate::cli::opt_str(url) {
            Some(u) => "flash firmware from "@ + u,
            None => "flash firmware from the device's OTA URL"@,
        },
{
    match url {
        Some(u) => {
            let mut s = String::from_str("flash firmware from ");
            s.append(u);
            s
        },
        None => String::from_str("flash firmware from the device's OTA URL"),
    }
}

/// Whether `console` must confirm a command, with the warning shown before asking:
/// a destructive or unclassifiable command is confirmed even for a single target;
/// only known-safe read and control commands skip the single-target prompt.
pub open spec fn console_gate_of(command: Seq<char>) -> (bool, Option<Seq<char>>) {
    match classification(command) {
        HazardView::Destructive(reason) => (true, Some("This command is destructive: "@ + reason)),
        HazardView::RequiresConfirmation => (
            true,
            Some("`"@ + command + "` is not a known-safe command; confirmation required."@),
        ),
        HazardView::Safe => (false, None),
    }
}

pub open spec fn warning_view(r: (bool, Option<String>)) -> (bool, Option<Seq<char>>) {
    (r.0, crate::model::opt_view(r.1))
}

/// Classifies a console command for the confirmation gate.
pub fn console_gate(command: &str) -> (r: (bool, Option<String>))
    ensures
        warning_view(r) == console_gate_of(command@),
{
    match classify(command) {
        Hazard::Destructive(reason) => {
            let mut s = String::from_str("This command is destructive: ");
            s.append(reason.as_str());
            (true, Some(s))
        },
        Hazard::RequiresConfirmation => {
            let mut s = String::from_str("`");
            s.append(command);
            s.append("` is not a known-safe command; confirmation required.");
            (true, Some(s))
        },
        Hazard::Safe => (false, None),
    }
}

/// The line shown for a target before a firmware update: its current version, or
/// why it is unreachable. One unreachable device does not stop the batch.
pub open spec fn precheck_text(t: ResolvedView, r: Result<Seq<char>, ErrorView>) -> Seq<char> {
    t.label + " ("@ + t.addr.host + "): "@ + match r {
        Ok(v) => "current firmware "@ + v,
        Err(e) => "unreachable ("@ + message_of(e) + ")"@,
    }
}

/// The pre-check line of a firmware update for one target.
pub fn precheck_line(t: &Resolved, version: &Result<String, Error>) -> (r: String)
    ensures
        r@ == precheck_text(
            t@,
            match *version {
                Ok(v) => Ok(v@),
                Err(e) => Err(e@),
            },
        ),
{
    let mut s = t.label.clone();
    s.append(" (");
    s.append(t.addr.host.as_str());
    s.append("): ");
    match version {
        Ok(v) => {
            s.append("current firmware ");
            s.append(v.as_str());
        },
        Err(e) => {
            s.append("unreachable (");
            s.append(e.message().as_str());
            s.append(")");
        },
    }
    s
}

/// `--out` names one file, so it cannot be used with several targets.
pub fn backup_check(out: Option<&str>, targets: usize) -> (r: Result<(), Error>)
    ensures
        match r {
            Ok(()) => !(out is Some && targets > 1),
            Err(e) => out is Some && targets > 1 && e@ == ErrorView::Usage(
                "--out cannot be used with multiple targets"@,
            ),
        },
{
    if out.is_some() && targets > 1 {
        return Err(
            Error::Usage { message: String::from_str("--out cannot be used with multiple targets") },
        );
    }
    Ok(())
}

/// How `backup` starts: `--out` with several targets is refused first, whatever else
/// is asked; then `--dry-run` shows the plan (`Some`); otherwise the backups are
/// downloaded (`None`).
pub fn backup_start(format: OutputFormat, dry_run: bool, out: Option<&str>, targets: &[Resolved]) -> (r:
    Result<Option<Rendered>, Error>)
    ensures
        out is Some && targets@.len() > 1 ==> (r matches Err(e) && e@ == ErrorView::Usage(
            "--out cannot be used with multiple targets"@,
        )),
        !(out is Some && targets@.len() > 1) && dry_run ==> (r matches Ok(Some(p)) && p@
            == plan_rendered(format, "download config backup"@, resolved_view(targets@))),
        !(out is Some && targets@.len() > 1) && !dry_run ==> r matches Ok(None),
{
    match backup_check(out, targets.len()) {
        Err(e) => Err(e),
        Ok(()) => {
            if dry_run {
                Ok(Some(plan(format, "download config backup", targets)))
            } else {
                Ok(None)
            }
        },
    }
}

/// How `firmware update` starts: `--dry-run` shows the plan (`Some`) and contacts no
/// device; otherwise (`None`) each device's version is read before confirmation.
pub fn firmware_update_start(format: OutputFormat, dry_run: bool, url: Option<&str>, targets: &[Resolved]) -> (r:
    Option<Rendered>)
    ensures
        dry_run ==> (r matches Some(p) && p@ == plan_rendered(
            format,
            match crate::cli::opt_str(url) {
                Some(u) => "flash firmware from "@ + u,
                None => "flash firmware from the device's OTA URL"@,
            },
            resolved_view(targets@),
        )),
        !dry_run ==> r is None,
{
    if dry_run {
        let action = flash_action(url);
        Some(plan(format, action.as_str(), targets))
    } else {
        None
    }
}

/// The file a backup of `label` goes to: `--out` when given, else the sanitized
/// label with `.dmp`.
pub fn backup_path(out: Option<&str>, label: &str) -> (r: String)
    ensures
        r@ == match crate::cli::opt_str(out) {
            Some(p) => p,
            None => sanitized(label@) + ".dmp"@,
        },
{
    match out {
        Some(p) => String::from_str(p),
        None => {
            let mut s = sanitize(label);
            s.append(".dmp");
            s
        },
    }
}

/// Why `restore` refuses: its upload endpoint and success criterion are unverified
/// against a live device, and an unverified mutation could report a false success.
pub fn restore_refusal() -> (r: Error)
    ensures
        r@ == ErrorView::Unavailable(
            "config restore is not enabled: its upload endpoint and success criterion are unverified against a live device. Use the device web UI (Configuration > Backup/Restore) to restore a .dmp for now."@,
        ),
{
    Error::Unavailable {
        message: String::from_str(
            "config restore is not enabled: its upload endpoint and success criterion are unverified against a live device. Use the device web UI (Configuration > Backup/Restore) to restore a .dmp for now.",
        ),
    }
}

/// The text `discover --dry-run` shows.
pub open spec fn scan_plan_text(cidr: Seq<char>, hosts: nat) -> Seq<char> {
    "[dry-run] would scan "@ + cidr + " ("@ + dec(hosts) + " hosts) and refresh the cache"@
}

/// The JSON `discover --dry-run` shows (members in key order).
pub open spec fn scan_plan_json(cidr: Seq<char>, hosts: nat) -> Seq<char> {
    seq!['{'] + member("action"@, quoted("scan and refresh cache"@)) + seq![','] + member(
        "dry_run"@,
        "true"@,
    ) + seq![','] + member("hosts"@, dec(hosts)) + seq![','] + member("range"@, quoted(cidr))
        + seq!['}']
}

/// The `discover --dry-run` report: the range and how many hosts it holds.
pub fn scan_plan(format: OutputFormat, cidr: &str, hosts: usize) -> (r: Rendered)
    ensures
        r@ == if format == OutputFormat::Json {
            RenderedView::Json(scan_plan_json(cidr@, hosts as nat))
        } else {
            RenderedView::Text(scan_plan_text(cidr@, hosts as nat))
        },
{
    match format {
        OutputFormat::Json => {
            let mut es: Vec<(String, Json)> = Vec::new();
            push_member(&mut es, "action", text_json("scan and refresh cache"));
            push_member(&mut es, "dry_run", Json::Bool(true));
            push_member(&mut es, "hosts", Json::Number(dec_string(hosts as u64)));
            push_member(&mut es, "range", text_json(cidr));
            let r = Json::Object(es);
            assert(compact(r) == scan_plan_json(cidr@, hosts as nat));
            Rendered::Json(r)
        },
        OutputFormat::Text => {
            let mut s = String::from_str("[dry-run] would scan ");
            s.append(cidr);
            s.append(" (");
            s.append(dec_string(hosts as u64).as_str());
            s.append(" hosts) and refresh the cache");
            Rendered::Text(s)
        },
    }
}

/// One found device in the JSON report of a scan (members in key order).
pub open spec fn found_json(d: DiscoveredView) -> Seq<char> {
    seq!['{'] + member("firmware"@, opt_text_json(d.status.firmware)) + seq![','] + member(
        "host"@,
        quoted(d.host),
    ) + seq![','] + member("name"@, quoted(crate::model::display_name_of(d.status))) + seq!['}']
}

pub open spec fn founds_json(ds: Seq<DiscoveredView>) -> Seq<char>
    decreases ds.len(),
{
    if ds.len() == 0 {
        Seq::empty()
    } else if ds.len() == 1 {
        found_json(ds[0])
    } else {
        founds_json(ds.drop_last()) + seq![','] + found_json(ds.last())
    }
}

/// The JSON report of a scan: name, host and firmware of each found device.
pub fn discovered_json(list: &[Discovered]) -> (r: Json)
    ensures
        compact(r) == seq!['['] + founds_json(found_view(list@)) + seq![']'],
{
    let ghost ds = found_view(list@);
    let mut items: Vec<Json> = Vec::new();
    let mut i: usize = 0;
    while i < list.len()
        invariant
            i <= list.len(),
            items.len() == i,
            ds == found_view(list@),
            crate::json::compact_items(items@) == founds_json(ds.take(i as int)),
        decreases list.len() - i,
    {
        let d = &list[i];
        let mut es: Vec<(String, Json)> = Vec::new();
        push_member(&mut es, "firmware", opt_text_value(&d.status.firmware));
        push_member(&mut es, "host", text_json(d.host.as_str()));
        push_member(&mut es, "name", text_json(d.status.display_name()));
        let item = Json::Object(es);
        let ghost iv = item;
        let ghost before = items@;
        items.push(item);
        proof {
            let t = ds.take(i + 1);
            assert(t.drop_last() =~= ds.take(i as int));
            assert(t.last() == d@);
            assert(compact(iv) == found_json(d@));
            assert(items@.drop_last() =~= before);
            assert(items@.last() == iv);
            if i == 0 {
                assert(t[0] == d@);
                assert(items@[0] == iv);
            }
        }
        i = i + 1;
    }
    assert(ds.take(list.len() as int) =~= ds);
    Json::Array(items)
}

/// The members of a group, separated by `, `.
pub open spec fn members_text(ms: Seq<Seq<char>>) -> Seq<char>
    decreases ms.len(),
{
    if ms.len() == 0 {
        Seq::empty()
    } else if ms.len() == 1 {
        ms[0]
    } else {
        members_text(ms.drop_last()) + ", "@ + ms.last()
    }
}

/// One line per group: its name, then its members.
pub open spec fn group_lines(gs: Seq<(Seq<char>, Seq<Seq<char>>)>) -> Seq<char>
    decreases gs.len(),
{
    if gs.len() == 0 {
        Seq::empty()
    } else if gs.len() == 1 {
        gs[0].0 + ": "@ + members_text(gs[0].1)
    } else {
        group_lines(gs.drop_last()) + "\n"@ + gs.last().0 + ": "@ + members_text(gs.last().1)
    }
}

/// The text of `group list`.
pub open spec fn groups_text_of(gs: Seq<(Seq<char>, Seq<Seq<char>>)>, path: Seq<char>) -> Seq<char> {
    if gs.len() == 0 {
        "no groups defined in "@ + path
    } else {
        group_lines(gs)
    }
}

fn members_string(ms: &Vec<String>) -> (r: String)
    ensures
        r@ == members_text(crate::model::strings_view(ms@)),
{
    let ghost mv = crate::model::strings_view(ms@);
    let mut out = String::new();
    let mut i: usize = 0;
    while i < ms.len()
        invariant
            i <= ms.len(),
            mv == crate::model::strings_view(ms@),
            out@ == members_text(mv.take(i as int)),
        decreases ms.len() - i,
    {
        if i > 0 {
            out.append(", ");
        }
        out.append(ms[i].as_str());
        proof {
            let t = mv.take(i + 1);
            assert(t.drop_last() =~= mv.take(i as int));
            assert(t.last() == ms@[i as int]@);
            if i == 0 {
                assert(t[0] == ms@[0]@);
            }
        }
        i = i + 1;
    }
    assert(mv.take(ms.len() as int) =~= mv);
    out
}

/// The text of `group list`: each group and its members, or a note that the groups
/// file defines none.
pub fn groups_text(groups: &Vec<(String, Vec<String>)>, path: &str) -> (r: String)
    ensures
        r@ == groups_text_of(crate::target::groups_view(groups@), path@),
{
    let ghost gv = crate::target::groups_view(groups@);
    if groups.len() == 0 {
        let mut s = String::from_str("no groups defined in ");
        s.append(path);
        return s;
    }
    let mut out = String::new();
    let mut i: usize = 0;
    while i < groups.len()
        invariant
            i <= groups.len(),
            gv == crate::target::groups_view(groups@),
            out@ == group_lines(gv.take(i as int)),
        decreases groups.len() - i,
    {
        if i > 0 {
            out.append("\n");
        }
        out.append(groups[i].0.as_str());
        out.append(": ");
        out.append(members_string(&groups[i].1).as_str());
        proof {
            let t = gv.take(i + 1);
            assert(t.drop_last() =~= gv.take(i as int));
            assert(t.last() == (groups@[i as int].0@, crate::model::strings_view(groups@[i as int].1@)));
            if i == 0 {
                assert(t[0] == t.last());
            }
        }
        i = i + 1;
    }
    assert(gv.take(groups.len() as int) =~= gv);
    out
}

/// A dry run never acts; an action that requires confirmation, a bulk selection or
/// more than one device is never carried out without asking unless `--yes` is given.
pub proof fn changes_are_gated(dry_run: bool, yes: bool, require_confirm: bool, bulk: bool, targets: nat)
    ensures
        dry_run ==> gate_of(dry_run, yes, require_confirm, bulk, targets) == GateStep::Plan,
        !dry_run && !yes && (require_confirm || bulk || targets > 1) ==> gate_of(
            dry_run,
            yes,
            require_confirm,
            bulk,
            targets,
        ) == GateStep::Confirm,
        gate_of(dry_run, yes, require_confirm, bulk, targets) == GateStep::Proceed ==> !dry_run && (
        yes || !(require_confirm || bulk || targets > 1)),
{
}

/// A console command skips the single-target prompt only when it is known to be
/// safe.
pub proof fn console_confirms_unless_safe(command: Seq<char>)
    ensures
        console_gate_of(command).0 <==> !(classification(command) is Safe),
{
}

/// The exit code of a multi-device report is `0` exactly when every device
/// succeeded; otherwise it is the exit code of the most severe failure.
pub proof fn exit_code_is_worst_failure(rs: Seq<PerDeviceView>)
    ensures
        worst_exit(rs) == 0 <==> forall|i: int| 0 <= i < rs.len() ==> (#[trigger] rs[i]).error is None,
        forall|i: int|
            0 <= i < rs.len() && (#[trigger] rs[i]).error is Some ==> exit_code_of(rs[i].error->0)
                <= worst_exit(rs),
        worst_exit(rs) != 0 ==> exists|i: int|
            0 <= i < rs.len() && (#[trigger] rs[i]).error is Some && exit_code_of(rs[i].error->0)
                == worst_exit(rs),
    decreases rs.len(),
{
    if rs.len() > 0 {
        let init = rs.drop_last();
        exit_code_is_worst_failure(init);
        let w = worst_exit(init);
        assert forall|i: int| 0 <= i < init.len() implies (#[trigger] init[i]) == rs[i] by {}
        if let Some(e) = rs.last().error {
            assert(exit_code_of(e) >= 1);
        }
        if worst_exit(rs) != 0 {
            if worst_exit(rs) == w {
                let i = choose|i: int|
                    0 <= i < init.len() && (#[trigger] init[i]).error is Some && exit_code_of(
                        init[i].error->0,
                    ) == w;
                assert(rs[i] == init[i]);
            } else {
                assert(rs[rs.len() - 1] == rs.last());
            }
        }
        assert forall|i: int|
            0 <= i < rs.len() && (#[trigger] rs[i]).error is Some implies exit_code_of(
            rs[i].error->0,
        ) <= worst_exit(rs) by {
            if i < init.len() {
                assert(init[i] == rs[i]);
            }
        }
        if worst_exit(rs) == 0 {
            assert forall|i: int| 0 <= i < rs.len() implies (#[trigger] rs[i]).error is None by {
                if i < init.len() {
                    assert(init[i] == rs[i]);
                }
                if let Some(e) = rs[i].error {
                    assert(exit_code_of(e) >= 1);
                }
            }
        }
    }
}

} // verus!
