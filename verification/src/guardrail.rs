//! Classify Tasmota console commands so a factory reset, firmware flash or
//! hardware remap cannot slip past the confirmation guardrails.
//!
//! Every (sub)command of a command, including each part of a `Backlog`, is
//! classified: `Destructive` resets, reflashes or remaps hardware and is always
//! guarded; `RequiresConfirmation` is anything not known to be safe (config writes,
//! unknown commands); `Safe` is a known read or basic relay-control command.

use vstd::prelude::*;
use crate::text::{
    is_ws, lemma_char_pos, lemma_trim_is, lemma_trim_span, lemma_ws_pos, lower_s, char_pos, chars_eq_ic_str, chars_eq_str, eq_ic, find_char, find_ws, slice_vec, views, string_of, to_chars, trim, trimmed, upper_chars, upper_s,
    ws_pos,
};

verus! {

/// The hazard classification of a command string.
#[derive(Debug, Clone, PartialEq, Eq)]
pub enum Hazard {
    /// At least one (sub)command resets, reflashes or remaps hardware; carries a reason.
    Destructive(String),
    /// No destructive (sub)command, but at least one is not known to be safe.
    RequiresConfirmation,
    /// Every (sub)command is a known read or basic relay-control command.
    Safe,
}

/// The mathematical value of a [`Hazard`].
pub enum HazardView {
    Destructive(Seq<char>),
    RequiresConfirmation,
    Safe,
}

impl View for Hazard {
    type V = HazardView;

    open spec fn view(&self) -> HazardView {
        match self {
            Hazard::Destructive(r) => HazardView::Destructive(r@),
            Hazard::RequiresConfirmation => HazardView::RequiresConfirmation,
            Hazard::Safe => HazardView::Safe,
        }
    }
}

/// Command words (uppercased) that reset, reflash, or remap hardware.
pub open spec fn is_destructive_word(w: Seq<char>) -> bool {
    ||| w == "RESET"@
    ||| w == "UPGRADE"@
    ||| w == "UPLOAD"@
    ||| w == "OTAURL"@
    ||| w == "MODULE"@
    ||| w == "TEMPLATE"@
    ||| w == "GPIO"@
    ||| w == "GPIOS"@
    ||| w == "WEBGETCONFIG"@
    ||| w == "RESTORE"@
}

/// `POWER` or `POWER1` to `POWER8`: basic relay control.
pub open spec fn is_relay_control_word(w: Seq<char>) -> bool {
    ||| w == "POWER"@
    ||| (w.len() == 6 && w.take(5) == "POWER"@ && '1' <= w[5] && w[5] <= '8')
}

/// Command words that are known to be safe: reads and relay control.
pub open spec fn is_safe_word(w: Seq<char>) -> bool {
    w == "STATUS"@ || w == "STATE"@ || is_relay_control_word(w)
}

/// The command word of a subcommand: its first whitespace-delimited token, uppercased.
pub open spec fn word_of(sub: Seq<char>) -> Seq<char> {
    upper_s(sub.take(ws_pos(sub) as int))
}

/// The non-empty trimmed `;`-separated parts of a `Backlog` argument list.
pub open spec fn backlog_parts(s: Seq<char>) -> Seq<Seq<char>>
    decreases s.len(),
{
    let p = char_pos(s, ';');
    let piece = trim(s.take(p as int));
    let tail = if p < s.len() { backlog_parts(s.skip(p + 1 as int)) } else { Seq::empty() };
    if piece.len() > 0 { seq![piece] + tail } else { tail }
}

/// The subcommands of a command: the parts of a leading `Backlog`/`Backlog0`
/// (case-insensitive), or else the whole trimmed command.
pub open spec fn subcommands_of(command: Seq<char>) -> Seq<Seq<char>> {
    let t = trim(command);
    let p = ws_pos(t);
    let head = t.take(p as int);
    if eq_ic(head, "backlog"@) || eq_ic(head, "backlog0"@) {
        let rest = if p < t.len() { t.skip(p + 1 as int) } else { Seq::empty() };
        backlog_parts(rest)
    } else {
        seq![t]
    }
}

pub open spec fn destructive_sub(sub: Seq<char>) -> bool {
    is_destructive_word(word_of(sub))
}

/// The reason carried by a destructive classification.
pub open spec fn destructive_reason(sub: Seq<char>) -> Seq<char> {
    "`"@ + trim(sub) + "` is a destructive command"@
}

/// The classification of a command: destructive when any subcommand is (the first
/// one gives the reason), otherwise confirmation is required when any subcommand is
/// not known to be safe, otherwise safe.
pub open spec fn classification(command: Seq<char>) -> HazardView {
    let subs = subcommands_of(command);
    if exists|i: int| 0 <= i < subs.len() && destructive_sub(#[trigger] subs[i]) {
        let i = choose|i: int|
            0 <= i < subs.len() && destructive_sub(#[trigger] subs[i]) && forall|j: int|
                0 <= j < i ==> !destructive_sub(#[trigger] subs[j]);
        HazardView::Destructive(destructive_reason(subs[i]))
    } else if exists|i: int| 0 <= i < subs.len() && !is_safe_word(word_of(#[trigger] subs[i])) {
        HazardView::RequiresConfirmation
    } else {
        HazardView::Safe
    }
}

fn backlog_parts_exec(s: &[char]) -> (r: Vec<Vec<char>>)
    ensures
        views(r@) == backlog_parts(s@),
    decreases s.len(),
{
    let p = find_char(s, ';');
    let head = slice_vec(s, 0, p);
    let piece = trimmed(head.as_slice());
    assert(s@.take(p as int) == head@);
    let ghost spec_tail = if p < s@.len() { backlog_parts(s@.skip(p + 1)) } else { Seq::empty() };
    let mut tail: Vec<Vec<char>> = if p < s.len() {
        let rest = slice_vec(s, p + 1, s.len());
        assert(rest@ == s@.skip(p + 1));
        backlog_parts_exec(rest.as_slice())
    } else {
        let e: Vec<Vec<char>> = Vec::new();
        assert(views(e@) =~= Seq::<Seq<char>>::empty());
        e
    };
    assert(views(tail@) == spec_tail);
    if piece.len() > 0 {
        let mut r: Vec<Vec<char>> = Vec::new();
        r.push(piece);
        let ghost first = r@;
        let ghost tl = tail@;
        r.append(&mut tail);
        assert(r@ == first + tl);
        assert(views(r@) =~= seq![trim(s@.take(p as int))] + spec_tail);
        r
    } else {
        tail
    }
}

/// Splits a command into subcommands, expanding a leading `Backlog`/`Backlog0`.
fn subcommands(command: &str) -> (r: Vec<Vec<char>>)
    ensures
        views(r@) == subcommands_of(command@),
{
    let cs = to_chars(command);
    let t = trimmed(cs.as_slice());
    let p = find_ws(t.as_slice());
    let head = slice_vec(t.as_slice(), 0, p);
    if chars_eq_ic_str(head.as_slice(), "backlog") || chars_eq_ic_str(head.as_slice(), "backlog0") {
        let rest = if p < t.len() {
            slice_vec(t.as_slice(), p + 1, t.len())
        } else {
            Vec::new()
        };
        assert(rest@ == (if p < t@.len() { t@.skip(p + 1) } else { Seq::<char>::empty() }));
        backlog_parts_exec(rest.as_slice())
    } else {
        let mut r: Vec<Vec<char>> = Vec::new();
        r.push(t);
        assert(views(r@) =~= seq![t@]);
        r
    }
}

/// The command word (first whitespace-delimited token), uppercased.
fn command_word(sub: &[char]) -> (r: Vec<char>)
    ensures
        r@ == word_of(sub@),
{
    let p = find_ws(sub);
    let w = slice_vec(sub, 0, p);
    upper_chars(w.as_slice())
}

/// `POWER`/`POWER1..8` are basic relay control (reversible, like `on`/`off`).
fn is_relay_control(word: &[char]) -> (r: bool)
    ensures
        r == is_relay_control_word(word@),
{
    if chars_eq_str(word, "POWER") {
        return true;
    }
    if word.len() != 6 {
        return false;
    }
    let head = slice_vec(word, 0, 5);
    if !chars_eq_str(head.as_slice(), "POWER") {
        return false;
    }
    '1' <= word[5] && word[5] <= '8'
}

fn is_destructive(word: &[char]) -> (r: bool)
    ensures
        r == is_destructive_word(word@),
{
    chars_eq_str(word, "RESET") || chars_eq_str(word, "UPGRADE") || chars_eq_str(word, "UPLOAD")
        || chars_eq_str(word, "OTAURL") || chars_eq_str(word, "MODULE") || chars_eq_str(
        word,
        "TEMPLATE",
    ) || chars_eq_str(word, "GPIO") || chars_eq_str(word, "GPIOS") || chars_eq_str(
        word,
        "WEBGETCONFIG",
    ) || chars_eq_str(word, "RESTORE")
}

fn is_safe_word_exec(word: &[char]) -> (r: bool)
    ensures
        r == is_safe_word(word@),
{
    chars_eq_str(word, "STATUS") || chars_eq_str(word, "STATE") || is_relay_control(word)
}

/// Classifies a raw command (possibly a `Backlog`). A destructive subcommand anywhere
/// makes the whole command destructive; otherwise any subcommand that is not known to
/// be safe requires confirmation.
pub fn classify(command: &str) -> (r: Hazard)
    ensures
        r@ == classification(command@),
{
    let subs = subcommands(command);
    let ghost sv = subcommands_of(command@);
    let mut requires_confirmation = false;
    let mut i: usize = 0;
    while i < subs.len()
        invariant
            views(subs@) == sv,
            sv == subcommands_of(command@),
            i <= subs.len(),
            forall|j: int| 0 <= j < i ==> !destructive_sub(#[trigger] sv[j]),
            requires_confirmation <==> exists|j: int|
                0 <= j < i && !is_safe_word(word_of(#[trigger] sv[j])),
        decreases subs.len() - i,
    {
        let sub = &subs[i];
        assert(sub@ == sv[i as int]);
        let word = command_word(sub.as_slice());
        if is_destructive(word.as_slice()) {
            let mut reason = String::from_str("`");
            let t = trimmed(sub.as_slice());
            let ts = string_of(t.as_slice());
            reason.append(ts.as_str());
            reason.append("` is a destructive command");
            proof {
                let k = choose|k: int|
                    0 <= k < sv.len() && destructive_sub(#[trigger] sv[k]) && forall|j: int|
                        0 <= j < k ==> !destructive_sub(#[trigger] sv[j]);
                assert(destructive_sub(sv[i as int]));
                if k < i {
                } else if k > i {
                    assert(!destructive_sub(sv[i as int]));
                }
            }
            return Hazard::Destructive(reason);
        }
        if !is_safe_word_exec(word.as_slice()) {
            requires_confirmation = true;
        }
        i = i + 1;
    }
    if requires_confirmation {
        Hazard::RequiresConfirmation
    } else {
        Hazard::Safe
    }
}

/// A destructive part anywhere in a command, a `Backlog` included, makes the whole
/// command destructive.
pub proof fn destructive_part_is_caught(command: Seq<char>, i: int)
    requires
        0 <= i < subcommands_of(command).len(),
        destructive_sub(subcommands_of(command)[i]),
    ensures
        classification(command) is Destructive,
{
}

/// A command is safe only when every part of it is a known read or relay-control
/// command, and none is destructive.
pub proof fn safe_command_has_only_safe_parts(command: Seq<char>, i: int)
    requires
        classification(command) is Safe,
        0 <= i < subcommands_of(command).len(),
    ensures
        is_safe_word(word_of(subcommands_of(command)[i])),
        !destructive_sub(subcommands_of(command)[i]),
{
}

/// The rank of a classification: safe 0, confirmation 1, destructive 2.
pub open spec fn hazard_level(h: HazardView) -> nat {
    match h {
        HazardView::Safe => 0,
        HazardView::RequiresConfirmation => 1,
        HazardView::Destructive(_) => 2,
    }
}

/// The rank of one subcommand on its own: destructive 2, not known to be safe 1, else 0.
pub open spec fn part_level(sub: Seq<char>) -> nat {
    if destructive_sub(sub) {
        2
    } else if !is_safe_word(word_of(sub)) {
        1
    } else {
        0
    }
}

/// The highest rank among subcommands (0 when there are none).
pub open spec fn highest_level(subs: Seq<Seq<char>>) -> nat
    decreases subs.len(),
{
    if subs.len() == 0 {
        0
    } else {
        let m = highest_level(subs.drop_last());
        let p = part_level(subs.last());
        if m >= p {
            m
        } else {
            p
        }
    }
}

proof fn lemma_highest_level(subs: Seq<Seq<char>>)
    ensures
        highest_level(subs) <= 2,
        highest_level(subs) == 2 <==> exists|i: int|
            0 <= i < subs.len() && destructive_sub(#[trigger] subs[i]),
        highest_level(subs) >= 1 <==> exists|i: int|
            0 <= i < subs.len() && (destructive_sub(#[trigger] subs[i]) || !is_safe_word(
                word_of(subs[i]),
            )),
    decreases subs.len(),
{
    if subs.len() > 0 {
        let init = subs.drop_last();
        lemma_highest_level(init);
        assert forall|i: int| 0 <= i < init.len() implies #[trigger] init[i] == subs[i] by {}
        let n = subs.len() - 1;
        if exists|i: int| 0 <= i < subs.len() && destructive_sub(#[trigger] subs[i]) {
            let i = choose|i: int| 0 <= i < subs.len() && destructive_sub(#[trigger] subs[i]);
            if i < n {
                assert(destructive_sub(init[i]));
            }
        }
        if exists|i: int|
            0 <= i < subs.len() && (destructive_sub(#[trigger] subs[i]) || !is_safe_word(
                word_of(subs[i]),
            )) {
            let i = choose|i: int|
                0 <= i < subs.len() && (destructive_sub(#[trigger] subs[i]) || !is_safe_word(
                    word_of(subs[i]),
                ));
            if i < n {
                assert(destructive_sub(init[i]) || !is_safe_word(word_of(init[i])));
            }
        }
        if highest_level(init) == 2 {
            let i = choose|i: int| 0 <= i < init.len() && destructive_sub(#[trigger] init[i]);
            assert(destructive_sub(subs[i]));
        }
        if highest_level(init) >= 1 {
            let i = choose|i: int|
                0 <= i < init.len() && (destructive_sub(#[trigger] init[i]) || !is_safe_word(
                    word_of(init[i]),
                ));
            assert(destructive_sub(subs[i]) || !is_safe_word(word_of(subs[i])));
        }
    }
}

/// The classification of a command is the highest-ranked of its subcommands: one
/// destructive part makes the whole command destructive, and any part not known to
/// be safe makes it require confirmation.
pub proof fn hazard_is_highest_part(command: Seq<char>)
    ensures
        hazard_level(classification(command)) == highest_level(subcommands_of(command)),
{
    lemma_highest_level(subcommands_of(command));
}

/// The first word of a command as written, before any `Backlog` expansion.
pub open spec fn first_word(command: Seq<char>) -> Seq<char> {
    trim(command).take(ws_pos(trim(command)) as int)
}

/// Whether a command is itself a `Backlog` (or `Backlog0`), in any ASCII case.
pub open spec fn is_backlog(command: Seq<char>) -> bool {
    eq_ic(first_word(command), "backlog"@) || eq_ic(first_word(command), "backlog0"@)
}

/// The `;`-parts of `a; c`, for `a` and `c` without `;` and `a` not blank.
proof fn lemma_two_parts(a: Seq<char>, c: Seq<char>)
    requires
        trim(a).len() > 0,
        trim(seq![' '] + c).len() > 0,
        !a.contains(';'),
        !c.contains(';'),
    ensures
        backlog_parts(a + "; "@ + c) == seq![trim(a), trim(seq![' '] + c)],
{
    reveal_strlit("; ");
    let rest = a + "; "@ + c;
    let na = a.len() as int;
    assert forall|k: int| 0 <= k < na implies #[trigger] rest[k] != ';' by {
        assert(rest[k] == a[k]);
        if a[k] == ';' {
            assert(a.contains(';'));
        }
    }
    lemma_char_pos(rest, ';', na);
    assert(rest.take(na) =~= a);
    let u = rest.skip(na + 1);
    assert(u =~= seq![' '] + c);
    assert forall|k: int| 0 <= k < u.len() implies #[trigger] u[k] != ';' by {
        if k > 0 {
            assert(u[k] == c[k - 1]);
            if c[k - 1] == ';' {
                assert(c.contains(';'));
            }
        }
    }
    lemma_char_pos(u, ';', u.len() as int);
    assert(u.take(u.len() as int) =~= u);
    assert(backlog_parts(u) =~= seq![trim(u)]);
    assert(backlog_parts(rest) =~= seq![trim(a), trim(u)]);
}

/// A blank before a text, and blanks after it, do not change its trimmed form.
proof fn lemma_trim_blank_before(b: Seq<char>) -> (jb: int)
    requires
        trim(b).len() > 0,
    ensures
        0 < jb <= b.len(),
        !is_ws(b[jb - 1]),
        forall|k: int| jb <= k < b.len() ==> is_ws(#[trigger] b[k]),
        trim(seq![' '] + b.take(jb)) == trim(b),
{
    let (ib, jb) = lemma_trim_span(b);
    let u = seq![' '] + b.take(jb);
    assert forall|k: int| 0 <= k < ib + 1 implies is_ws(#[trigger] u[k]) by {
        if k > 0 {
            assert(u[k] == b[k - 1]);
        }
    }
    assert(u[ib + 1] == b[ib]);
    assert(u[jb] == b[jb - 1]);
    lemma_trim_is(u, ib + 1, jb + 1);
    assert(trim(u) =~= trim(b));
    jb
}

/// The subcommands of `Backlog a; b` are those of the `;`-list `a; b`, the blanks
/// after `b` dropped.
proof fn lemma_backlog_subcommands(a: Seq<char>, b: Seq<char>, jb: int)
    requires
        0 < jb <= b.len(),
        !is_ws(b[jb - 1]),
        forall|k: int| jb <= k < b.len() ==> is_ws(#[trigger] b[k]),
    ensures
        subcommands_of("Backlog "@ + a + "; "@ + b) == backlog_parts(a + "; "@ + b.take(jb)),
{
    reveal_strlit("Backlog ");
    reveal_strlit("; ");
    reveal_strlit("backlog");
    let cmd = "Backlog "@ + a + "; "@ + b;
    let na = a.len() as int;
    let end = 10 + na + jb;
    assert forall|k: int| end <= k < cmd.len() implies is_ws(#[trigger] cmd[k]) by {
        assert(cmd[k] == b[k - 10 - na]);
    }
    assert(cmd[end - 1] == b[jb - 1]);
    lemma_trim_is(cmd, 0, end);
    let t = trim(cmd);
    assert(t =~= "Backlog "@ + a + "; "@ + b.take(jb));
    assert forall|k: int| 0 <= k < 7 implies !is_ws(#[trigger] t[k]) by {}
    lemma_ws_pos(t, 7);
    assert(lower_s(t.take(7)) =~= lower_s("backlog"@));
    assert(t.skip(8) =~= a + "; "@ + b.take(jb));
}

/// `Backlog a; b`, for two non-blank commands without `;` that are not themselves
/// `Backlog`s, is ranked as the higher of `a` and `b` on their own.
pub proof fn backlog_of_two_is_ranked_by_its_parts(a: Seq<char>, b: Seq<char>)
    requires
        trim(a).len() > 0,
        trim(b).len() > 0,
        !a.contains(';'),
        !b.contains(';'),
        !is_backlog(a),
        !is_backlog(b),
    ensures
        ({
            let la = hazard_level(classification(a));
            let lb = hazard_level(classification(b));
            hazard_level(classification("Backlog "@ + a + "; "@ + b)) == if la >= lb {
                la
            } else {
                lb
            }
        }),
{
    let cmd = "Backlog "@ + a + "; "@ + b;
    let jb = lemma_trim_blank_before(b);
    let c = b.take(jb);
    assert(!c.contains(';')) by {
        if c.contains(';') {
            let k = choose|k: int| 0 <= k < c.len() && c[k] == ';';
            assert(b[k] == ';');
        }
    }
    lemma_backlog_subcommands(a, b, jb);
    lemma_two_parts(a, c);
    let subs = seq![trim(a), trim(b)];
    assert(subcommands_of(cmd) == subs);
    assert(subcommands_of(a) == seq![trim(a)]);
    assert(subcommands_of(b) == seq![trim(b)]);
    hazard_is_highest_part(cmd);
    hazard_is_highest_part(a);
    hazard_is_highest_part(b);
    assert(subs.drop_last() =~= seq![trim(a)]);
    assert(seq![trim(a)].drop_last() =~= Seq::<Seq<char>>::empty());
    assert(seq![trim(b)].drop_last() =~= Seq::<Seq<char>>::empty());
}

/// Each command word of the destructive list (`RESET`, `UPGRADE`, `UPLOAD`, `OTAURL`,
/// `MODULE`, `TEMPLATE`, `GPIO`, `GPIOS`, `WEBGETCONFIG`, `RESTORE`, in any ASCII case),
/// as the word of the command or of any part of a `Backlog`, makes the command
/// destructive.
pub proof fn listed_commands_are_destructive(command: Seq<char>, i: int)
    requires
        0 <= i < subcommands_of(command).len(),
        ({
            let w = word_of(subcommands_of(command)[i]);
            ||| w == "RESET"@
            ||| w == "UPGRADE"@
            ||| w == "UPLOAD"@
            ||| w == "OTAURL"@
            ||| w == "MODULE"@
            ||| w == "TEMPLATE"@
            ||| w == "GPIO"@
            ||| w == "GPIOS"@
            ||| w == "WEBGETCONFIG"@
            ||| w == "RESTORE"@
        }),
    ensures
        classification(command) is Destructive,
{
    destructive_part_is_caught(command, i);
}

/// The words the guardrail knows to be safe: the status reads `STATUS` and `STATE`,
/// and relay control `POWER`, `POWER1` to `POWER8`.
pub open spec fn listed_safe(w: Seq<char>) -> bool {
    ||| w == "STATUS"@
    ||| w == "STATE"@
    ||| w == "POWER"@
    ||| w == "POWER1"@
    ||| w == "POWER2"@
    ||| w == "POWER3"@
    ||| w == "POWER4"@
    ||| w == "POWER5"@
    ||| w == "POWER6"@
    ||| w == "POWER7"@
    ||| w == "POWER8"@
}

/// The words of the destructive list.
pub open spec fn listed_destructive(w: Seq<char>) -> bool {
    ||| w == "RESET"@
    ||| w == "UPGRADE"@
    ||| w == "UPLOAD"@
    ||| w == "OTAURL"@
    ||| w == "MODULE"@
    ||| w == "TEMPLATE"@
    ||| w == "GPIO"@
    ||| w == "GPIOS"@
    ||| w == "WEBGETCONFIG"@
    ||| w == "RESTORE"@
}

proof fn lemma_listed_words(w: Seq<char>)
    ensures
        listed_safe(w) ==> is_safe_word(w) && !is_destructive_word(w),
        is_safe_word(w) ==> listed_safe(w),
        is_destructive_word(w) <==> listed_destructive(w),
{
    reveal_strlit("STATUS");
    reveal_strlit("STATE");
    reveal_strlit("POWER");
    reveal_strlit("POWER1");
    reveal_strlit("POWER2");
    reveal_strlit("POWER3");
    reveal_strlit("POWER4");
    reveal_strlit("POWER5");
    reveal_strlit("POWER6");
    reveal_strlit("POWER7");
    reveal_strlit("POWER8");
    reveal_strlit("RESET");
    reveal_strlit("UPGRADE");
    reveal_strlit("UPLOAD");
    reveal_strlit("OTAURL");
    reveal_strlit("MODULE");
    reveal_strlit("TEMPLATE");
    reveal_strlit("GPIO");
    reveal_strlit("GPIOS");
    reveal_strlit("WEBGETCONFIG");
    reveal_strlit("RESTORE");
    if w.len() == 6 && w.take(5) == "POWER"@ && '1' <= w[5] && w[5] <= '8' {
        assert(w[0] == 'P' && w[1] == 'O' && w[2] == 'W' && w[3] == 'E' && w[4] == 'R') by {
            assert(w.take(5)[0] == w[0] && w.take(5)[1] == w[1] && w.take(5)[2] == w[2]);
            assert(w.take(5)[3] == w[3] && w.take(5)[4] == w[4]);
        }
        if w[5] == '1' { assert(w =~= "POWER1"@); }
        else if w[5] == '2' { assert(w =~= "POWER2"@); }
        else if w[5] == '3' { assert(w =~= "POWER3"@); }
        else if w[5] == '4' { assert(w =~= "POWER4"@); }
        else if w[5] == '5' { assert(w =~= "POWER5"@); }
        else if w[5] == '6' { assert(w =~= "POWER6"@); }
        else if w[5] == '7' { assert(w =~= "POWER7"@); }
        else { assert(w =~= "POWER8"@); }
    }
    if w == "STATUS"@ {
        assert("STATUS"@.len() != "RESET"@.len());
        assert("STATUS"@.len() != "UPGRADE"@.len());
        assert("STATUS"@[0] != "UPLOAD"@[0]);
        assert("STATUS"@[0] != "OTAURL"@[0]);
        assert("STATUS"@[0] != "MODULE"@[0]);
        assert("STATUS"@.len() != "TEMPLATE"@.len());
        assert("STATUS"@.len() != "GPIO"@.len());
        assert("STATUS"@.len() != "GPIOS"@.len());
        assert("STATUS"@.len() != "WEBGETCONFIG"@.len());
        assert("STATUS"@.len() != "RESTORE"@.len());
    }
    if w == "STATE"@ {
        assert("STATE"@[0] != "RESET"@[0]);
        assert("STATE"@.len() != "UPGRADE"@.len());
        assert("STATE"@.len() != "UPLOAD"@.len());
        assert("STATE"@.len() != "OTAURL"@.len());
        assert("STATE"@.len() != "MODULE"@.len());
        assert("STATE"@.len() != "TEMPLATE"@.len());
        assert("STATE"@.len() != "GPIO"@.len());
        assert("STATE"@[0] != "GPIOS"@[0]);
        assert("STATE"@.len() != "WEBGETCONFIG"@.len());
        assert("STATE"@.len() != "RESTORE"@.len());
    }
    if w == "POWER"@ {
        assert("POWER"@[0] != "RESET"@[0]);
        assert("POWER"@.len() != "UPGRADE"@.len());
        assert("POWER"@.len() != "UPLOAD"@.len());
        assert("POWER"@.len() != "OTAURL"@.len());
        assert("POWER"@.len() != "MODULE"@.len());
        assert("POWER"@.len() != "TEMPLATE"@.len());
        assert("POWER"@.len() != "GPIO"@.len());
        assert("POWER"@[0] != "GPIOS"@[0]);
        assert("POWER"@.len() != "WEBGETCONFIG"@.len());
        assert("POWER"@.len() != "RESTORE"@.len());
    }
    if w == "POWER1"@ {
        assert(w.take(5) =~= "POWER"@);
        assert("POWER1"@.len() != "RESET"@.len());
        assert("POWER1"@.len() != "UPGRADE"@.len());
        assert("POWER1"@[0] != "UPLOAD"@[0]);
        assert("POWER1"@[0] != "OTAURL"@[0]);
        assert("POWER1"@[0] != "MODULE"@[0]);
        assert("POWER1"@.len() != "TEMPLATE"@.len());
        assert("POWER1"@.len() != "GPIO"@.len());
        assert("POWER1"@.len() != "GPIOS"@.len());
        assert("POWER1"@.len() != "WEBGETCONFIG"@.len());
        assert("POWER1"@.len() != "RESTORE"@.len());
    }
    if w == "POWER2"@ {
        assert(w.take(5) =~= "POWER"@);
        assert("POWER2"@.len() != "RESET"@.len());
        assert("POWER2"@.len() != "UPGRADE"@.len());
        assert("POWER2"@[0] != "UPLOAD"@[0]);
        assert("POWER2"@[0] != "OTAURL"@[0]);
        assert("POWER2"@[0] != "MODULE"@[0]);
        assert("POWER2"@.len() != "TEMPLATE"@.len());
        assert("POWER2"@.len() != "GPIO"@.len());
        assert("POWER2"@.len() != "GPIOS"@.len());
        assert("POWER2"@.len() != "WEBGETCONFIG"@.len());
        assert("POWER2"@.len() != "RESTORE"@.len());
    }
    if w == "POWER3"@ {
        assert(w.take(5) =~= "POWER"@);
        assert("POWER3"@.len() != "RESET"@.len());
        assert("POWER3"@.len() != "UPGRADE"@.len());
        assert("POWER3"@[0] != "UPLOAD"@[0]);
        assert("POWER3"@[0] != "OTAURL"@[0]);
        assert("POWER3"@[0] != "MODULE"@[0]);
        assert("POWER3"@.len() != "TEMPLATE"@.len());
        assert("POWER3"@.len() != "GPIO"@.len());
        assert("POWER3"@.len() != "GPIOS"@.len());
        assert("POWER3"@.len() != "WEBGETCONFIG"@.len());
        assert("POWER3"@.len() != "RESTORE"@.len());
    }
    if w == "POWER4"@ {
        assert(w.take(5) =~= "POWER"@);
        assert("POWER4"@.len() != "RESET"@.len());
        assert("POWER4"@.len() != "UPGRADE"@.len());
        assert("POWER4"@[0] != "UPLOAD"@[0]);
        assert("POWER4"@[0] != "OTAURL"@[0]);
        assert("POWER4"@[0] != "MODULE"@[0]);
        assert("POWER4"@.len() != "TEMPLATE"@.len());
        assert("POWER4"@.len() != "GPIO"@.len());
        assert("POWER4"@.len() != "GPIOS"@.len());
        assert("POWER4"@.len() != "WEBGETCONFIG"@.len());
        assert("POWER4"@.len() != "RESTORE"@.len());
    }
    if w == "POWER5"@ {
        assert(w.take(5) =~= "POWER"@);
        assert("POWER5"@.len() != "RESET"@.len());
        assert("POWER5"@.len() != "UPGRADE"@.len());
        assert("POWER5"@[0] != "UPLOAD"@[0]);
        assert("POWER5"@[0] != "OTAURL"@[0]);
        assert("POWER5"@[0] != "MODULE"@[0]);
        assert("POWER5"@.len() != "TEMPLATE"@.len());
        assert("POWER5"@.len() != "GPIO"@.len());
        assert("POWER5"@.len() != "GPIOS"@.len());
        assert("POWER5"@.len() != "WEBGETCONFIG"@.len());
        assert("POWER5"@.len() != "RESTORE"@.len());
    }
    if w == "POWER6"@ {
        assert(w.take(5) =~= "POWER"@);
        assert("POWER6"@.len() != "RESET"@.len());
        assert("POWER6"@.len() != "UPGRADE"@.len());
        assert("POWER6"@[0] != "UPLOAD"@[0]);
        assert("POWER6"@[0] != "OTAURL"@[0]);
        assert("POWER6"@[0] != "MODULE"@[0]);
        assert("POWER6"@.len() != "TEMPLATE"@.len());
        assert("POWER6"@.len() != "GPIO"@.len());
        assert("POWER6"@.len() != "GPIOS"@.len());
        assert("POWER6"@.len() != "WEBGETCONFIG"@.len());
        assert("POWER6"@.len() != "RESTORE"@.len());
    }
    if w == "POWER7"@ {
        assert(w.take(5) =~= "POWER"@);
        assert("POWER7"@.len() != "RESET"@.len());
        assert("POWER7"@.len() != "UPGRADE"@.len());
        assert("POWER7"@[0] != "UPLOAD"@[0]);
        assert("POWER7"@[0] != "OTAURL"@[0]);
        assert("POWER7"@[0] != "MODULE"@[0]);
        assert("POWER7"@.len() != "TEMPLATE"@.len());
        assert("POWER7"@.len() != "GPIO"@.len());
        assert("POWER7"@.len() != "GPIOS"@.len());
        assert("POWER7"@.len() != "WEBGETCONFIG"@.len());
        assert("POWER7"@.len() != "RESTORE"@.len());
    }
    if w == "POWER8"@ {
        assert(w.take(5) =~= "POWER"@);
        assert("POWER8"@.len() != "RESET"@.len());
        assert("POWER8"@.len() != "UPGRADE"@.len());
        assert("POWER8"@[0] != "UPLOAD"@[0]);
        assert("POWER8"@[0] != "OTAURL"@[0]);
        assert("POWER8"@[0] != "MODULE"@[0]);
        assert("POWER8"@.len() != "TEMPLATE"@.len());
        assert("POWER8"@.len() != "GPIO"@.len());
        assert("POWER8"@.len() != "GPIOS"@.len());
        assert("POWER8"@.len() != "WEBGETCONFIG"@.len());
        assert("POWER8"@.len() != "RESTORE"@.len());
    }
}

/// A command, `Backlog` parts included, is safe when the word of every part is a
/// status read or relay control (`STATUS`, `STATE`, `POWER`, `POWER1`..`POWER8`, any
/// ASCII case).
pub proof fn listed_safe_commands_are_safe(command: Seq<char>)
    requires
        forall|i: int|
            0 <= i < subcommands_of(command).len() ==> listed_safe(
                word_of(#[trigger] subcommands_of(command)[i]),
            ),
    ensures
        classification(command) is Safe,
{
    let subs = subcommands_of(command);
    assert forall|i: int| 0 <= i < subs.len() implies !destructive_sub(#[trigger] subs[i])
        && is_safe_word(word_of(subs[i])) by {
        lemma_listed_words(word_of(subs[i]));
    }
}

/// A command none of whose parts is destructive, but one of whose parts is neither a
/// status read nor relay control, requires confirmation.
pub proof fn unlisted_commands_require_confirmation(command: Seq<char>, i: int)
    requires
        0 <= i < subcommands_of(command).len(),
        !listed_safe(word_of(subcommands_of(command)[i])),
        !listed_destructive(word_of(subcommands_of(command)[i])),
        forall|j: int|
            0 <= j < subcommands_of(command).len() ==> !listed_destructive(
                word_of(#[trigger] subcommands_of(command)[j]),
            ),
    ensures
        classification(command) is RequiresConfirmation,
{
    let subs = subcommands_of(command);
    assert forall|j: int| 0 <= j < subs.len() implies !destructive_sub(#[trigger] subs[j]) by {
        lemma_listed_words(word_of(subs[j]));
    }
    lemma_listed_words(word_of(subs[i]));
    assert(!is_safe_word(word_of(subs[i])));
}

} // verus!
