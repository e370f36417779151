//! The document decoder: from the tag events of `crate::xml` to a
//! `Config` snapshot, with the strict decode contract of the model.
//!
//! The hierarchy read is `root → ValidationRules → Groups →
//! ValidationRulesGroup → ValidationRule → Rules → Rule`. Unknown elements
//! and attributes are skipped; of a repeated element or attribute the
//! first occurrence counts. A decode fails exactly when a required
//! element or attribute is absent, a closing tag does not match its open
//! tag, a `Type` attribute names no registered kind, or a scalar
//! attribute fails its decoder. Content after the used part of the
//! document is not validated further.

use vstd::prelude::*;
use vstd::string::*;
use crate::config::{
    Config,
    ConfigV,
    ConditionV,
    GroupV,
    GroupsContainer,
    Rule,
    RuleDeclV,
    RulesContainer,
    ValidationRuleSettings,
    ValidationRulesContainer,
    ValidationRulesGroupSettings,
};
use crate::errors::{DecodeError, DecodeErrorV, MalformedKind};
use crate::rule_types::{RuleType, rule_type_of_name};
use crate::scalars::{bool_decode, i32_of_seq, int_list_decode, parse_bool, parse_csv_string,
    parse_i32_str};
use crate::text::str_eq;
use vstd::std_specs::cmp::PartialEqSpec;
use crate::xml::{MalfV, TokV, XmlToken, attrs_view, toks_view, xml_scan, scan_xml};

verus! {

/// The value of the first attribute named `key`, if any.
pub open spec fn attr_first(attrs: Seq<(Seq<char>, Seq<char>)>, key: Seq<char>) -> Option<Seq<char>>
    decreases attrs.len(),
{
    if attrs.len() == 0 {
        None
    } else if attrs[0].0 == key {
        Some(attrs[0].1)
    } else {
        attr_first(attrs.drop_first(), key)
    }
}

/// The next walk position: `cand` where it advances and stays in bounds.
/// As in `crate::xml::advance`, the fallback arm only keeps recursion
/// well-founded and never describes a reachable walk.
pub open spec fn tadv(len: int, j: int, cand: int) -> int {
    if j < cand && cand <= len {
        cand
    } else if j < len {
        j + 1
    } else {
        len
    }
}

/// The position after the closing tag that matches an open tag named
/// `name` at position `p`, walking from `j` and checking that every
/// nested close matches its open.
pub open spec fn close_of(toks: Seq<TokV>, j: int, name: Seq<char>, p: int) -> Result<int, MalfV>
    decreases toks.len() - j,
{
    if j < 0 || j >= toks.len() {
        Err(MalfV { kind: MalformedKind::UnexpectedEnd, pos: p })
    } else {
        match toks[j] {
            TokV::Close { name: n2, pos: p2 } => if n2 == name {
                Ok(j + 1)
            } else {
                Err(MalfV { kind: MalformedKind::MismatchedTag, pos: p2 })
            },
            TokV::SelfClose { .. } => close_of(toks, j + 1, name, p),
            TokV::Open { name: n2, pos: p2, .. } => match close_of(toks, j + 1, n2, p2) {
                Err(e) => Err(e),
                Ok(m) => close_of(toks, tadv(toks.len() as int, j, m), name, p),
            },
        }
    }
}

/// A structural failure as a decode error, with its position.
pub open spec fn malformed(kind: MalformedKind, pos: int) -> DecodeErrorV {
    DecodeErrorV::MalformedDocument { kind, offset: Some(pos) }
}

/// The first direct child element named `target` of the element named
/// `parent` (open tag at `p`), walking the children from `j`: its index,
/// or `None` when the parent closes without one.
pub open spec fn find_named_child(
    toks: Seq<TokV>,
    j: int,
    parent: Seq<char>,
    p: int,
    target: Seq<char>,
) -> Result<Option<int>, DecodeErrorV>
    decreases toks.len() - j,
{
    if j < 0 || j >= toks.len() {
        Err(malformed(MalformedKind::UnexpectedEnd, p))
    } else {
        match toks[j] {
            TokV::Close { name: n2, pos: p2 } => if n2 == parent {
                Ok(None)
            } else {
                Err(malformed(MalformedKind::MismatchedTag, p2))
            },
            TokV::SelfClose { name: n2, .. } => if n2 == target {
                Ok(Some(j))
            } else {
                find_named_child(toks, j + 1, parent, p, target)
            },
            TokV::Open { name: n2, pos: p2, .. } => if n2 == target {
                Ok(Some(j))
            } else {
                match close_of(toks, j + 1, n2, p2) {
                    Err(e) => Err(malformed(e.kind, e.pos)),
                    Ok(m) => find_named_child(toks, tadv(toks.len() as int, j, m), parent, p, target),
                }
            },
        }
    }
}

/// One condition from the attribute list of a `Rule` element.
pub open spec fn condition_of_attrs(attrs: Seq<(Seq<char>, Seq<char>)>) -> Result<
    ConditionV,
    DecodeErrorV,
> {
    let ids = match attr_first(attrs, "ForCandidateStatusIds"@) {
        None => Ok(Seq::<i32>::empty()),
        Some(raw) => match int_list_decode(raw) {
            Ok(v) => Ok(v),
            Err(seg) => Err(DecodeErrorV::InvalidIntegerList(raw, seg)),
        },
    };
    match ids {
        Err(e) => Err(e),
        Ok(ids) => match attr_first(attrs, "Enforce"@) {
            None => Ok(ConditionV { for_candidate_status_ids: ids, enforce: false }),
            Some(raw) => match bool_decode(raw) {
                None => Err(DecodeErrorV::InvalidBoolean(raw)),
                Some(b) => Ok(ConditionV { for_candidate_status_ids: ids, enforce: b }),
            },
        },
    }
}

/// The conditions of a `Rules` element (open tag at `p`), walking its
/// children from `j`, and the position after its closing tag.
pub open spec fn conditions_from(toks: Seq<TokV>, j: int, p: int) -> Result<
    (Seq<ConditionV>, int),
    DecodeErrorV,
>
    decreases toks.len() - j,
{
    if j < 0 || j >= toks.len() {
        Err(malformed(MalformedKind::UnexpectedEnd, p))
    } else {
        match toks[j] {
            TokV::Close { name: n2, pos: p2 } => if n2 == "Rules"@ {
                Ok((Seq::empty(), j + 1))
            } else {
                Err(malformed(MalformedKind::MismatchedTag, p2))
            },
            TokV::SelfClose { name: n2, attrs, .. } => {
                let rest = conditions_from(toks, j + 1, p);
                if n2 == "Rule"@ {
                    match condition_of_attrs(attrs) {
                        Err(e) => Err(e),
                        Ok(c) => match rest {
                            Err(e) => Err(e),
                            Ok((cs, end)) => Ok((seq![c] + cs, end)),
                        },
                    }
                } else {
                    rest
                }
            },
            TokV::Open { name: n2, attrs, pos: p2 } => match close_of(toks, j + 1, n2, p2) {
                Err(e) => Err(malformed(e.kind, e.pos)),
                Ok(m) => {
                    let rest = conditions_from(toks, tadv(toks.len() as int, j, m), p);
                    if n2 == "Rule"@ {
                        match condition_of_attrs(attrs) {
                            Err(e) => Err(e),
                            Ok(c) => match rest {
                                Err(e) => Err(e),
                                Ok((cs, end)) => Ok((seq![c] + cs, end)),
                            },
                        }
                    } else {
                        rest
                    }
                },
            },
        }
    }
}

/// The condition list of the first `Rules` child of a `ValidationRule`
/// element (open tag at `p`), walking its children from `j`: `None` when
/// the element closes without a `Rules` child; and the position after
/// the closing tag.
pub open spec fn decl_children(toks: Seq<TokV>, j: int, p: int) -> Result<
    (Option<Seq<ConditionV>>, int),
    DecodeErrorV,
>
    decreases toks.len() - j,
{
    if j < 0 || j >= toks.len() {
        Err(malformed(MalformedKind::UnexpectedEnd, p))
    } else {
        match toks[j] {
            TokV::Close { name: n2, pos: p2 } => if n2 == "ValidationRule"@ {
                Ok((None, j + 1))
            } else {
                Err(malformed(MalformedKind::MismatchedTag, p2))
            },
            TokV::SelfClose { name: n2, .. } => {
                match decl_children(toks, j + 1, p) {
                    Err(e) => Err(e),
                    Ok((later, end)) => if n2 == "Rules"@ {
                        Ok((Some(Seq::empty()), end))
                    } else {
                        Ok((later, end))
                    },
                }
            },
            TokV::Open { name: n2, pos: p2, .. } => if n2 == "Rules"@ {
                match conditions_from(toks, j + 1, p2) {
                    Err(e) => Err(e),
                    Ok((cs, m)) => match decl_children(toks, tadv(toks.len() as int, j, m), p) {
                        Err(e) => Err(e),
                        Ok((_, end)) => Ok((Some(cs), end)),
                    },
                }
            } else {
                match close_of(toks, j + 1, n2, p2) {
                    Err(e) => Err(malformed(e.kind, e.pos)),
                    Ok(m) => decl_children(toks, tadv(toks.len() as int, j, m), p),
                }
            },
        }
    }
}

/// The scalar fields of a rule declaration from its attribute list
/// (open tag at `p`): kind, enabled flag, and the three optional scalars.
pub open spec fn decl_of_attrs(attrs: Seq<(Seq<char>, Seq<char>)>, p: int) -> Result<
    RuleDeclV,
    DecodeErrorV,
> {
    match attr_first(attrs, "Type"@) {
        None => Err(malformed(MalformedKind::MissingType, p)),
        Some(traw) => match rule_type_of_name(traw) {
            None => Err(DecodeErrorV::UnknownRuleKind(traw)),
            Some(kind) => match attr_first(attrs, "Enabled"@) {
                None => Err(malformed(MalformedKind::MissingEnabled, p)),
                Some(eraw) => match bool_decode(eraw) {
                    None => Err(DecodeErrorV::InvalidBoolean(eraw)),
                    Some(enabled) => {
                        let fallback = match attr_first(attrs, "FallbackShiftStatusId"@) {
                            None => Ok(None::<i32>),
                            Some(raw) => match i32_of_seq(raw) {
                                None => Err(malformed(MalformedKind::BadInteger, p)),
                                Some(v) => Ok(Some(v as i32)),
                            },
                        };
                        match fallback {
                            Err(e) => Err(e),
                            Ok(fallback) => {
                                let pos_ids = match attr_first(attrs, "PositionTypeIDs"@) {
                                    None => Ok(Seq::<i32>::empty()),
                                    Some(raw) => match int_list_decode(raw) {
                                        Ok(v) => Ok(v),
                                        Err(seg) => Err(
                                            DecodeErrorV::InvalidIntegerList(raw, seg),
                                        ),
                                    },
                                };
                                match pos_ids {
                                    Err(e) => Err(e),
                                    Ok(pos_ids) => {
                                        let from_match = match attr_first(
                                            attrs,
                                            "FromMatchStatusId"@,
                                        ) {
                                            None => Ok(None::<i32>),
                                            Some(raw) => match i32_of_seq(raw) {
                                                None => Err(
                                                    malformed(MalformedKind::BadInteger, p),
                                                ),
                                                Some(v) => Ok(Some(v as i32)),
                                            },
                                        };
                                        match from_match {
                                            Err(e) => Err(e),
                                            Ok(from_match) => Ok(
                                                RuleDeclV {
                                                    rule_type: kind,
                                                    enabled,
                                                    fallback_shift_status_id: fallback,
                                                    position_type_ids: pos_ids,
                                                    from_match_status_id: from_match,
                                                    conditions: Seq::empty(),
                                                },
                                            ),
                                        }
                                    },
                                }
                            },
                        }
                    },
                },
            },
        },
    }
}

/// One rule declaration from the `ValidationRule` element at `i`, and the
/// position after it.
pub open spec fn decl_at(toks: Seq<TokV>, i: int) -> Result<(RuleDeclV, int), DecodeErrorV>
    recommends
        0 <= i < toks.len(),
{
    match toks[i] {
        TokV::Close { pos: p2, .. } => Err(malformed(MalformedKind::MismatchedTag, p2)),
        TokV::SelfClose { attrs, pos, .. } => match decl_of_attrs(attrs, pos) {
            Err(e) => Err(e),
            Ok(_) => Err(malformed(MalformedKind::MissingRules, pos)),
        },
        TokV::Open { attrs, pos, .. } => match decl_of_attrs(attrs, pos) {
            Err(e) => Err(e),
            Ok(d) => match decl_children(toks, i + 1, pos) {
                Err(e) => Err(e),
                Ok((None, _)) => Err(malformed(MalformedKind::MissingRules, pos)),
                Ok((Some(cs), end)) => Ok((RuleDeclV { conditions: cs, ..d }, end)),
            },
        },
    }
}

/// The declarations of a `ValidationRulesGroup` element (open tag at
/// `p`), walking its children from `j`, and the position after its
/// closing tag.
pub open spec fn decls_from(toks: Seq<TokV>, j: int, p: int) -> Result<
    (Seq<RuleDeclV>, int),
    DecodeErrorV,
>
    decreases toks.len() - j,
{
    if j < 0 || j >= toks.len() {
        Err(malformed(MalformedKind::UnexpectedEnd, p))
    } else {
        match toks[j] {
            TokV::Close { name: n2, pos: p2 } => if n2 == "ValidationRulesGroup"@ {
                Ok((Seq::empty(), j + 1))
            } else {
                Err(malformed(MalformedKind::MismatchedTag, p2))
            },
            TokV::SelfClose { name: n2, .. } | TokV::Open { name: n2, .. } => if n2
                == "ValidationRule"@ {
                match decl_at(toks, j) {
                    Err(e) => Err(e),
                    Ok((d, m)) => match decls_from(toks, tadv(toks.len() as int, j, m), p) {
                        Err(e) => Err(e),
                        Ok((ds, end)) => Ok((seq![d] + ds, end)),
                    },
                }
            } else {
                match elem_end(toks, j) {
                    Err(e) => Err(malformed(e.kind, e.pos)),
                    Ok(m) => decls_from(toks, tadv(toks.len() as int, j, m), p),
                }
            },
        }
    }
}

/// The position after the element starting at `i` (an open or
/// self-closing tag).
pub open spec fn elem_end(toks: Seq<TokV>, i: int) -> Result<int, MalfV>
    recommends
        0 <= i < toks.len(),
{
    match toks[i] {
        TokV::Close { pos: p2, .. } => Err(MalfV { kind: MalformedKind::MismatchedTag, pos: p2 }),
        TokV::SelfClose { .. } => Ok(i + 1),
        TokV::Open { name, pos, .. } => close_of(toks, i + 1, name, pos),
    }
}

/// One group from the `ValidationRulesGroup` element at `i`, and the
/// position after it. The `Group` attribute is required and non-empty.
pub open spec fn group_at(toks: Seq<TokV>, i: int) -> Result<(GroupV, int), DecodeErrorV>
    recommends
        0 <= i < toks.len(),
{
    match toks[i] {
        TokV::Close { pos: p2, .. } => Err(malformed(MalformedKind::MismatchedTag, p2)),
        TokV::SelfClose { attrs, pos, .. } => match attr_first(attrs, "Group"@) {
            None => Err(malformed(MalformedKind::MissingGroupName, pos)),
            Some(name) => if name.len() == 0 {
                Err(malformed(MalformedKind::MissingGroupName, pos))
            } else {
                Ok((GroupV { name, rules: Seq::empty() }, i + 1))
            },
        },
        TokV::Open { attrs, pos, .. } => match attr_first(attrs, "Group"@) {
            None => Err(malformed(MalformedKind::MissingGroupName, pos)),
            Some(name) => if name.len() == 0 {
                Err(malformed(MalformedKind::MissingGroupName, pos))
            } else {
                match decls_from(toks, i + 1, pos) {
                    Err(e) => Err(e),
                    Ok((ds, end)) => Ok((GroupV { name, rules: ds }, end)),
                }
            },
        },
    }
}

/// The groups of a `Groups` element (open tag at `p`), walking its
/// children from `j`, and the position after its closing tag.
pub open spec fn groups_from(toks: Seq<TokV>, j: int, p: int) -> Result<
    (Seq<GroupV>, int),
    DecodeErrorV,
>
    decreases toks.len() - j,
{
    if j < 0 || j >= toks.len() {
        Err(malformed(MalformedKind::UnexpectedEnd, p))
    } else {
        match toks[j] {
            TokV::Close { name: n2, pos: p2 } => if n2 == "Groups"@ {
                Ok((Seq::empty(), j + 1))
            } else {
                Err(malformed(MalformedKind::MismatchedTag, p2))
            },
            TokV::SelfClose { name: n2, .. } | TokV::Open { name: n2, .. } => if n2
                == "ValidationRulesGroup"@ {
                match group_at(toks, j) {
                    Err(e) => Err(e),
                    Ok((g, m)) => match groups_from(toks, tadv(toks.len() as int, j, m), p) {
                        Err(e) => Err(e),
                        Ok((gs, end)) => Ok((seq![g] + gs, end)),
                    },
                }
            } else {
                match elem_end(toks, j) {
                    Err(e) => Err(malformed(e.kind, e.pos)),
                    Ok(m) => groups_from(toks, tadv(toks.len() as int, j, m), p),
                }
            },
        }
    }
}

/// The snapshot a token sequence decodes to, if any.
pub open spec fn decode_document(toks: Seq<TokV>) -> Result<ConfigV, DecodeErrorV> {
    if toks.len() == 0 {
        Err(DecodeErrorV::MalformedDocument { kind: MalformedKind::MissingRoot, offset: None })
    } else {
        match toks[0] {
            TokV::Close { pos: p2, .. } => Err(malformed(MalformedKind::MismatchedTag, p2)),
            TokV::SelfClose { pos, .. } => Err(malformed(MalformedKind::MissingValidationRules, pos)),
            TokV::Open { name: rn, pos: rp, .. } => match find_named_child(
                toks,
                1,
                rn,
                rp,
                "ValidationRules"@,
            ) {
                Err(e) => Err(e),
                Ok(None) => Err(malformed(MalformedKind::MissingValidationRules, rp)),
                Ok(Some(iv)) => match toks[iv] {
                    TokV::SelfClose { pos: pv, .. } => Err(malformed(MalformedKind::MissingGroups, pv)),
                    TokV::Open { pos: pv, .. } => match find_named_child(
                        toks,
                        iv + 1,
                        "ValidationRules"@,
                        pv,
                        "Groups"@,
                    ) {
                        Err(e) => Err(e),
                        Ok(None) => Err(malformed(MalformedKind::MissingGroups, pv)),
                        Ok(Some(ig)) => match toks[ig] {
                            TokV::SelfClose { .. } => Ok(ConfigV { groups: Seq::empty() }),
                            TokV::Open { pos: pg, .. } => match groups_from(toks, ig + 1, pg) {
                                Err(e) => Err(e),
                                Ok((gs, _)) => Ok(ConfigV { groups: gs }),
                            },
                            TokV::Close { pos: p2, .. } => Err(
                                malformed(MalformedKind::MismatchedTag, p2),
                            ),
                        },
                    },
                    TokV::Close { pos: p2, .. } => Err(malformed(MalformedKind::MismatchedTag, p2)),
                },
            },
        }
    }
}

/// The snapshot a document text decodes to, if any: the whole decode
/// contract of the model, from raw text to `Config`.
pub open spec fn config_decode(s: Seq<char>) -> Result<ConfigV, DecodeErrorV> {
    match xml_scan(s) {
        Err(m) => Err(DecodeErrorV::MalformedDocument { kind: m.kind, offset: Some(m.pos) }),
        Ok(toks) => decode_document(toks),
    }
}

/// The model invariant of a snapshot: every group carries a non-empty
/// name.
pub open spec fn config_wf(c: ConfigV) -> bool {
    forall|i: int| 0 <= i < c.groups.len() ==> (#[trigger] c.groups[i]).name.len() > 0
}

proof fn lemma_groups_from_wf(toks: Seq<TokV>, j: int, p: int)
    ensures
        groups_from(toks, j, p) matches Ok(t) ==> forall|i: int|
            0 <= i < t.0.len() ==> (#[trigger] t.0[i]).name.len() > 0,
    decreases toks.len() - j,
{
    if 0 <= j < toks.len() {
        match toks[j] {
            TokV::Close { .. } => {},
            TokV::SelfClose { name: n2, .. } | TokV::Open { name: n2, .. } => {
                if n2 == "ValidationRulesGroup"@ {
                    if group_at(toks, j) is Ok {
                        let g = group_at(toks, j)->Ok_0.0;
                        let m = group_at(toks, j)->Ok_0.1;
                        lemma_groups_from_wf(toks, tadv(toks.len() as int, j, m), p);
                        if groups_from(toks, tadv(toks.len() as int, j, m), p) is Ok {
                            let t = groups_from(toks, tadv(toks.len() as int, j, m), p)->Ok_0;
                            assert forall|i: int|
                                0 <= i < (seq![g] + t.0).len() implies (#[trigger] (seq![g]
                                + t.0)[i]).name.len() > 0 by {
                                if i > 0 {
                                    assert((seq![g] + t.0)[i] == t.0[i - 1]);
                                }
                            }
                        }
                    }
                } else {
                    if elem_end(toks, j) is Ok {
                        let m = elem_end(toks, j)->Ok_0;
                        lemma_groups_from_wf(toks, tadv(toks.len() as int, j, m), p);
                    }
                }
            },
        }
    }
}

/// Every snapshot that decodes at all satisfies the model invariant:
/// the decoder rejects a group without a name, so no snapshot with an
/// unnamed group ever reaches the watcher.
pub proof fn lemma_decoded_config_wf(s: Seq<char>)
    ensures
        config_decode(s) matches Ok(c) ==> config_wf(c),
{
    if xml_scan(s) is Ok {
        let toks = xml_scan(s)->Ok_0;
        if toks.len() > 0 && toks[0] is Open {
            let rn = toks[0]->Open_name;
            let rp = toks[0]->Open_pos;
            let fv = find_named_child(toks, 1, rn, rp, "ValidationRules"@);
            if fv is Ok && fv->Ok_0 is Some {
                let iv = fv->Ok_0->Some_0;
                if toks[iv] is Open {
                    let pv = toks[iv]->Open_pos;
                    let fg = find_named_child(toks, iv + 1, "ValidationRules"@, pv, "Groups"@);
                    if fg is Ok && fg->Ok_0 is Some {
                        let ig = fg->Ok_0->Some_0;
                        if toks[ig] is Open {
                            lemma_groups_from_wf(toks, ig + 1, toks[ig]->Open_pos);
                        }
                    }
                }
            }
        }
    }
}

/// Decoding is a function of the text alone: two snapshots decoded from
/// the same text are structurally equal.
pub proof fn lemma_decode_deterministic(s: Seq<char>, a: &Config, b: &Config)
    requires
        config_decode(s) == Ok::<ConfigV, DecodeErrorV>(a@),
        config_decode(s) == Ok::<ConfigV, DecodeErrorV>(b@),
    ensures
        a.eq_spec(b),
{
}

fn attr_first_exec(attrs: &Vec<(String, String)>, key: &str) -> (r: Option<String>)
    ensures
        match r {
            Some(v) => attr_first(attrs_view(attrs@), key@) == Some(v@),
            None => attr_first(attrs_view(attrs@), key@) is None,
        },
{
    proof {
        assert(attrs_view(attrs@).skip(0) =~= attrs_view(attrs@));
    }
    let mut i: usize = 0;
    while i < attrs.len()
        invariant
            i <= attrs@.len(),
            attr_first(attrs_view(attrs@), key@) == attr_first(
                attrs_view(attrs@).skip(i as int),
                key@,
            ),
        decreases attrs@.len() - i,
    {
        let ghost rest = attrs_view(attrs@).skip(i as int);
        proof {
            assert(rest[0] == attrs_view(attrs@)[i as int]);
            assert(rest.drop_first() =~= attrs_view(attrs@).skip(i + 1));
        }
        if str_eq(attrs[i].0.as_str(), key) {
            return Some(attrs[i].1.clone());
        }
        i = i + 1;
    }
    proof {
        assert(attrs_view(attrs@).skip(attrs@.len() as int) =~= Seq::<(Seq<char>, Seq<char>)>::empty());
    }
    None
}

fn close_of_exec(toks: &Vec<XmlToken>, j: usize, name: &str, p: usize) -> (r: Result<
    usize,
    (MalformedKind, usize),
>)
    requires
        j <= toks@.len(),
    ensures
        match r {
            Ok(m) => close_of(toks_view(toks@), j as int, name@, p as int) == Ok::<int, MalfV>(
                m as int,
            ) && j < m <= toks@.len(),
            Err(f) => close_of(toks_view(toks@), j as int, name@, p as int) == Err::<int, MalfV>(
                MalfV { kind: f.0, pos: f.1 as int },
            ),
        },
    decreases toks@.len() - j,
{
    let n = toks.len();
    if j >= n {
        return Err((MalformedKind::UnexpectedEnd, p));
    }
    proof {
        assert(toks_view(toks@)[j as int] == toks@[j as int]@);
    }
    match &toks[j] {
        XmlToken::Close { name: n2, pos: p2 } => {
            if str_eq(n2.as_str(), name) {
                Ok(j + 1)
            } else {
                Err((MalformedKind::MismatchedTag, *p2))
            }
        },
        XmlToken::SelfClose { .. } => close_of_exec(toks, j + 1, name, p),
        XmlToken::Open { name: n2, pos: p2, .. } => {
            match close_of_exec(toks, j + 1, n2.as_str(), *p2) {
                Err(f) => Err(f),
                Ok(m) => {
                    proof {
                        assert(tadv(toks@.len() as int, j as int, m as int) == m as int);
                    }
                    close_of_exec(toks, m, name, p)
                },
            }
        },
    }
}

fn elem_end_exec(toks: &Vec<XmlToken>, i: usize) -> (r: Result<usize, (MalformedKind, usize)>)
    requires
        i < toks@.len(),
    ensures
        match r {
            Ok(m) => elem_end(toks_view(toks@), i as int) == Ok::<int, MalfV>(m as int) && i < m
                <= toks@.len(),
            Err(f) => elem_end(toks_view(toks@), i as int) == Err::<int, MalfV>(
                MalfV { kind: f.0, pos: f.1 as int },
            ),
        },
{
    let n = toks.len();
    proof {
        assert(toks_view(toks@)[i as int] == toks@[i as int]@);
    }
    match &toks[i] {
        XmlToken::Close { pos: p2, .. } => Err((MalformedKind::MismatchedTag, *p2)),
        XmlToken::SelfClose { .. } => Ok(i + 1),
        XmlToken::Open { name, pos, .. } => close_of_exec(toks, i + 1, name.as_str(), *pos),
    }
}

fn find_named_child_exec(toks: &Vec<XmlToken>, j: usize, parent: &str, p: usize, target: &str) -> (r:
    Result<Option<usize>, DecodeError>)
    requires
        j <= toks@.len(),
    ensures
        match r {
            Ok(Some(k)) => find_named_child(toks_view(toks@), j as int, parent@, p as int, target@)
                == Ok::<Option<int>, DecodeErrorV>(Some(k as int)) && j <= k < toks@.len(),
            Ok(None) => find_named_child(toks_view(toks@), j as int, parent@, p as int, target@)
                == Ok::<Option<int>, DecodeErrorV>(None),
            Err(e) => find_named_child(toks_view(toks@), j as int, parent@, p as int, target@)
                matches Err(ev) && ev == e@,
        },
    decreases toks@.len() - j,
{
    let n = toks.len();
    if j >= n {
        return Err(DecodeError::MalformedDocument { kind: MalformedKind::UnexpectedEnd, offset: Some(p) });
    }
    proof {
        assert(toks_view(toks@)[j as int] == toks@[j as int]@);
    }
    match &toks[j] {
        XmlToken::Close { name: n2, pos: p2 } => {
            if str_eq(n2.as_str(), parent) {
                Ok(None)
            } else {
                Err(DecodeError::MalformedDocument { kind: MalformedKind::MismatchedTag, offset: Some(*p2) })
            }
        },
        XmlToken::SelfClose { name: n2, .. } => {
            if str_eq(n2.as_str(), target) {
                Ok(Some(j))
            } else {
                find_named_child_exec(toks, j + 1, parent, p, target)
            }
        },
        XmlToken::Open { name: n2, pos: p2, .. } => {
            if str_eq(n2.as_str(), target) {
                Ok(Some(j))
            } else {
                match close_of_exec(toks, j + 1, n2.as_str(), *p2) {
                    Err(f) => Err(
                        DecodeError::MalformedDocument { kind: f.0, offset: Some(f.1) },
                    ),
                    Ok(m) => {
                        proof {
                            assert(tadv(toks@.len() as int, j as int, m as int) == m as int);
                        }
                        find_named_child_exec(toks, m, parent, p, target)
                    },
                }
            }
        },
    }
}

fn condition_of_attrs_exec(attrs: &Vec<(String, String)>) -> (r: Result<Rule, DecodeError>)
    ensures
        match r {
            Ok(c) => condition_of_attrs(attrs_view(attrs@)) == Ok::<ConditionV, DecodeErrorV>(c@),
            Err(e) => condition_of_attrs(attrs_view(attrs@)) matches Err(ev) && ev == e@,
        },
{
    let ids: Vec<i32> = match attr_first_exec(attrs, "ForCandidateStatusIds") {
        None => Vec::new(),
        Some(raw) => match parse_csv_string(raw.as_str()) {
            Ok(v) => v,
            Err(e) => {
                return Err(e);
            },
        },
    };
    match attr_first_exec(attrs, "Enforce") {
        None => Ok(Rule { for_candidate_status_ids: ids, enforce: false }),
        Some(raw) => match parse_bool(raw.as_str()) {
            Ok(b) => Ok(Rule { for_candidate_status_ids: ids, enforce: b }),
            Err(e) => Err(e),
        },
    }
}

fn conditions_from_exec(toks: &Vec<XmlToken>, j: usize, p: usize) -> (r: Result<
    (Vec<Rule>, usize),
    DecodeError,
>)
    requires
        j <= toks@.len(),
    ensures
        match r {
            Ok(t) => conditions_from(toks_view(toks@), j as int, p as int) == Ok::<
                (Seq<ConditionV>, int),
                DecodeErrorV,
            >((t.0@.map_values(|c: Rule| c@), t.1 as int)) && j < t.1 <= toks@.len(),
            Err(e) => conditions_from(toks_view(toks@), j as int, p as int) matches Err(ev) && ev
                == e@,
        },
    decreases toks@.len() - j,
{
    let n = toks.len();
    if j >= n {
        return Err(DecodeError::MalformedDocument { kind: MalformedKind::UnexpectedEnd, offset: Some(p) });
    }
    proof {
        assert(toks_view(toks@)[j as int] == toks@[j as int]@);
    }
    match &toks[j] {
        XmlToken::Close { name: n2, pos: p2 } => {
            if str_eq(n2.as_str(), "Rules") {
                proof {
                    assert(Seq::<Rule>::empty().map_values(|c: Rule| c@) =~= Seq::<
                        ConditionV,
                    >::empty());
                }
                Ok((Vec::new(), j + 1))
            } else {
                Err(DecodeError::MalformedDocument { kind: MalformedKind::MismatchedTag, offset: Some(*p2) })
            }
        },
        XmlToken::SelfClose { name: n2, attrs, .. } => {
            if str_eq(n2.as_str(), "Rule") {
                match condition_of_attrs_exec(attrs) {
                    Err(e) => Err(e),
                    Ok(c) => match conditions_from_exec(toks, j + 1, p) {
                        Err(e) => Err(e),
                        Ok((cs, end)) => {
                            let ghost cs0 = cs@;
                            let mut cs = cs;
                            cs.insert(0, c);
                            proof {
                                assert(cs@.map_values(|c: Rule| c@) =~= seq![c@] + cs0.map_values(
                                    |c: Rule| c@,
                                ));
                            }
                            Ok((cs, end))
                        },
                    },
                }
            } else {
                conditions_from_exec(toks, j + 1, p)
            }
        },
        XmlToken::Open { name: n2, attrs, pos: p2 } => {
            match close_of_exec(toks, j + 1, n2.as_str(), *p2) {
                Err(f) => Err(DecodeError::MalformedDocument { kind: f.0, offset: Some(f.1) }),
                Ok(m) => {
                    proof {
                        assert(tadv(toks@.len() as int, j as int, m as int) == m as int);
                    }
                    if str_eq(n2.as_str(), "Rule") {
                        match condition_of_attrs_exec(attrs) {
                            Err(e) => Err(e),
                            Ok(c) => match conditions_from_exec(toks, m, p) {
                                Err(e) => Err(e),
                                Ok((cs, end)) => {
                                    let ghost cs0 = cs@;
                                    let mut cs = cs;
                                    cs.insert(0, c);
                                    proof {
                                        assert(cs@.map_values(|c: Rule| c@) =~= seq![c@]
                                            + cs0.map_values(|c: Rule| c@));
                                    }
                                    Ok((cs, end))
                                },
                            },
                        }
                    } else {
                        conditions_from_exec(toks, m, p)
                    }
                },
            }
        },
    }
}

fn decl_children_exec(toks: &Vec<XmlToken>, j: usize, p: usize) -> (r: Result<
    (Option<Vec<Rule>>, usize),
    DecodeError,
>)
    requires
        j <= toks@.len(),
    ensures
        match r {
            Ok(t) => decl_children(toks_view(toks@), j as int, p as int) == Ok::<
                (Option<Seq<ConditionV>>, int),
                DecodeErrorV,
            >(
                (
                    match t.0 {
                        Some(cs) => Some(cs@.map_values(|c: Rule| c@)),
                        None => None,
                    },
                    t.1 as int,
                ),
            ) && j < t.1 <= toks@.len(),
            Err(e) => decl_children(toks_view(toks@), j as int, p as int) matches Err(ev) && ev
                == e@,
        },
    decreases toks@.len() - j,
{
    let n = toks.len();
    if j >= n {
        return Err(DecodeError::MalformedDocument { kind: MalformedKind::UnexpectedEnd, offset: Some(p) });
    }
    proof {
        assert(toks_view(toks@)[j as int] == toks@[j as int]@);
    }
    match &toks[j] {
        XmlToken::Close { name: n2, pos: p2 } => {
            if str_eq(n2.as_str(), "ValidationRule") {
                Ok((None, j + 1))
            } else {
                Err(DecodeError::MalformedDocument { kind: MalformedKind::MismatchedTag, offset: Some(*p2) })
            }
        },
        XmlToken::SelfClose { name: n2, .. } => {
            match decl_children_exec(toks, j + 1, p) {
                Err(e) => Err(e),
                Ok((later, end)) => {
                    if str_eq(n2.as_str(), "Rules") {
                        proof {
                            assert(Seq::<Rule>::empty().map_values(|c: Rule| c@) =~= Seq::<
                                ConditionV,
                            >::empty());
                        }
                        Ok((Some(Vec::new()), end))
                    } else {
                        Ok((later, end))
                    }
                },
            }
        },
        XmlToken::Open { name: n2, pos: p2, .. } => {
            if str_eq(n2.as_str(), "Rules") {
                match conditions_from_exec(toks, j + 1, *p2) {
                    Err(e) => Err(e),
                    Ok((cs, m)) => {
                        proof {
                            assert(tadv(toks@.len() as int, j as int, m as int) == m as int);
                        }
                        match decl_children_exec(toks, m, p) {
                            Err(e) => Err(e),
                            Ok((_, end)) => Ok((Some(cs), end)),
                        }
                    },
                }
            } else {
                match close_of_exec(toks, j + 1, n2.as_str(), *p2) {
                    Err(f) => Err(
                        DecodeError::MalformedDocument { kind: f.0, offset: Some(f.1) },
                    ),
                    Ok(m) => {
                        proof {
                            assert(tadv(toks@.len() as int, j as int, m as int) == m as int);
                        }
                        decl_children_exec(toks, m, p)
                    },
                }
            }
        },
    }
}

fn decl_of_attrs_exec(attrs: &Vec<(String, String)>, p: usize) -> (r: Result<
    ValidationRuleSettings,
    DecodeError,
>)
    ensures
        match r {
            Ok(d) => decl_of_attrs(attrs_view(attrs@), p as int) == Ok::<RuleDeclV, DecodeErrorV>(
                d@,
            ),
            Err(e) => decl_of_attrs(attrs_view(attrs@), p as int) matches Err(ev) && ev == e@,
        },
{
    let traw = match attr_first_exec(attrs, "Type") {
        None => {
            return Err(
                DecodeError::MalformedDocument { kind: MalformedKind::MissingType, offset: Some(p) },
            );
        },
        Some(traw) => traw,
    };
    let kind = match RuleType::from_name(traw.as_str()) {
        None => {
            return Err(DecodeError::UnknownRuleKind(traw));
        },
        Some(kind) => kind,
    };
    let eraw = match attr_first_exec(attrs, "Enabled") {
        None => {
            return Err(
                DecodeError::MalformedDocument { kind: MalformedKind::MissingEnabled, offset: Some(p) },
            );
        },
        Some(eraw) => eraw,
    };
    let enabled = match parse_bool(eraw.as_str()) {
        Err(e) => {
            return Err(e);
        },
        Ok(b) => b,
    };
    let fallback: Option<i32> = match attr_first_exec(attrs, "FallbackShiftStatusId") {
        None => None,
        Some(raw) => match parse_i32_str(raw.as_str()) {
            None => {
                return Err(
                    DecodeError::MalformedDocument { kind: MalformedKind::BadInteger, offset: Some(p) },
                );
            },
            Some(v) => Some(v),
        },
    };
    let pos_ids: Vec<i32> = match attr_first_exec(attrs, "PositionTypeIDs") {
        None => Vec::new(),
        Some(raw) => match parse_csv_string(raw.as_str()) {
            Ok(v) => v,
            Err(e) => {
                return Err(e);
            },
        },
    };
    let from_match: Option<i32> = match attr_first_exec(attrs, "FromMatchStatusId") {
        None => None,
        Some(raw) => match parse_i32_str(raw.as_str()) {
            None => {
                return Err(
                    DecodeError::MalformedDocument { kind: MalformedKind::BadInteger, offset: Some(p) },
                );
            },
            Some(v) => Some(v),
        },
    };
    let d = ValidationRuleSettings {
        rule_type: kind,
        enabled,
        fallback_shift_status_id: fallback,
        position_type_ids: pos_ids,
        from_match_status_id: from_match,
        rules: RulesContainer { rules: Vec::new() },
    };
    proof {
        assert(Seq::<Rule>::empty().map_values(|c: Rule| c@) =~= Seq::<ConditionV>::empty());
    }
    Ok(d)
}

fn decl_at_exec(toks: &Vec<XmlToken>, i: usize) -> (r: Result<
    (ValidationRuleSettings, usize),
    DecodeError,
>)
    requires
        i < toks@.len(),
    ensures
        match r {
            Ok(t) => decl_at(toks_view(toks@), i as int) == Ok::<(RuleDeclV, int), DecodeErrorV>(
                (t.0@, t.1 as int),
            ) && i < t.1 <= toks@.len(),
            Err(e) => decl_at(toks_view(toks@), i as int) matches Err(ev) && ev == e@,
        },
{
    let n = toks.len();
    proof {
        assert(toks_view(toks@)[i as int] == toks@[i as int]@);
    }
    match &toks[i] {
        XmlToken::Close { pos: p2, .. } => Err(
            DecodeError::MalformedDocument { kind: MalformedKind::MismatchedTag, offset: Some(*p2) },
        ),
        XmlToken::SelfClose { attrs, pos, .. } => {
            match decl_of_attrs_exec(attrs, *pos) {
                Err(e) => Err(e),
                Ok(_) => Err(
                    DecodeError::MalformedDocument { kind: MalformedKind::MissingRules, offset: Some(*pos) },
                ),
            }
        },
        XmlToken::Open { attrs, pos, .. } => {
            match decl_of_attrs_exec(attrs, *pos) {
                Err(e) => Err(e),
                Ok(d) => match decl_children_exec(toks, i + 1, *pos) {
                    Err(e) => Err(e),
                    Ok((None, _)) => Err(
                        DecodeError::MalformedDocument { kind: MalformedKind::MissingRules, offset: Some(*pos) },
                    ),
                    Ok((Some(cs), end)) => {
                        let d = ValidationRuleSettings { rules: RulesContainer { rules: cs }, ..d };
                        Ok((d, end))
                    },
                },
            }
        },
    }
}

fn decls_from_exec(toks: &Vec<XmlToken>, j: usize, p: usize) -> (r: Result<
    (Vec<ValidationRuleSettings>, usize),
    DecodeError,
>)
    requires
        j <= toks@.len(),
    ensures
        match r {
            Ok(t) => decls_from(toks_view(toks@), j as int, p as int) == Ok::<
                (Seq<RuleDeclV>, int),
                DecodeErrorV,
            >((t.0@.map_values(|d: ValidationRuleSettings| d@), t.1 as int)) && j < t.1
                <= toks@.len(),
            Err(e) => decls_from(toks_view(toks@), j as int, p as int) matches Err(ev) && ev == e@,
        },
    decreases toks@.len() - j,
{
    let n = toks.len();
    if j >= n {
        return Err(DecodeError::MalformedDocument { kind: MalformedKind::UnexpectedEnd, offset: Some(p) });
    }
    proof {
        assert(toks_view(toks@)[j as int] == toks@[j as int]@);
    }
    match &toks[j] {
        XmlToken::Close { name: n2, pos: p2 } => {
            if str_eq(n2.as_str(), "ValidationRulesGroup") {
                proof {
                    assert(Seq::<ValidationRuleSettings>::empty().map_values(
                        |d: ValidationRuleSettings| d@,
                    ) =~= Seq::<RuleDeclV>::empty());
                }
                Ok((Vec::new(), j + 1))
            } else {
                Err(
                    DecodeError::MalformedDocument { kind: MalformedKind::MismatchedTag, offset: Some(*p2) },
                )
            }
        },
        XmlToken::SelfClose { name: n2, .. } | XmlToken::Open { name: n2, .. } => {
        if str_eq(n2.as_str(), "ValidationRule") {
            match decl_at_exec(toks, j) {
                Err(e) => Err(e),
                Ok((d, m)) => {
                    proof {
                        assert(tadv(toks@.len() as int, j as int, m as int) == m as int);
                    }
                    match decls_from_exec(toks, m, p) {
                        Err(e) => Err(e),
                        Ok((ds, end)) => {
                            let ghost ds0 = ds@;
                            let mut ds = ds;
                            ds.insert(0, d);
                            proof {
                                assert(ds@.map_values(|d: ValidationRuleSettings| d@) =~= seq![d@]
                                    + ds0.map_values(|d: ValidationRuleSettings| d@));
                            }
                            Ok((ds, end))
                        },
                    }
                },
            }
        } else {
            match elem_end_exec(toks, j) {
                Err(f) => Err(DecodeError::MalformedDocument { kind: f.0, offset: Some(f.1) }),
                Ok(m) => {
                    proof {
                        assert(tadv(toks@.len() as int, j as int, m as int) == m as int);
                    }
                    decls_from_exec(toks, m, p)
                },
            }
        }
        },
    }
}

fn group_at_exec(toks: &Vec<XmlToken>, i: usize) -> (r: Result<
    (ValidationRulesGroupSettings, usize),
    DecodeError,
>)
    requires
        i < toks@.len(),
    ensures
        match r {
            Ok(t) => group_at(toks_view(toks@), i as int) == Ok::<(GroupV, int), DecodeErrorV>(
                (t.0@, t.1 as int),
            ) && i < t.1 <= toks@.len(),
            Err(e) => group_at(toks_view(toks@), i as int) matches Err(ev) && ev == e@,
        },
{
    let n = toks.len();
    proof {
        assert(toks_view(toks@)[i as int] == toks@[i as int]@);
    }
    match &toks[i] {
        XmlToken::Close { pos: p2, .. } => Err(
            DecodeError::MalformedDocument { kind: MalformedKind::MismatchedTag, offset: Some(*p2) },
        ),
        XmlToken::SelfClose { attrs, pos, .. } => {
            match attr_first_exec(attrs, "Group") {
                None => Err(
                    DecodeError::MalformedDocument { kind: MalformedKind::MissingGroupName, offset: Some(*pos) },
                ),
                Some(name) => {
                    if name.as_str().unicode_len() == 0 {
                        Err(
                            DecodeError::MalformedDocument { kind: MalformedKind::MissingGroupName, offset: Some(*pos) },
                        )
                    } else {
                        proof {
                            assert(Seq::<ValidationRuleSettings>::empty().map_values(
                                |d: ValidationRuleSettings| d@,
                            ) =~= Seq::<RuleDeclV>::empty());
                        }
                        Ok(
                            (
                                ValidationRulesGroupSettings {
                                    group: name,
                                    validation_rules: Vec::new(),
                                },
                                i + 1,
                            ),
                        )
                    }
                },
            }
        },
        XmlToken::Open { attrs, pos, .. } => {
            match attr_first_exec(attrs, "Group") {
                None => Err(
                    DecodeError::MalformedDocument { kind: MalformedKind::MissingGroupName, offset: Some(*pos) },
                ),
                Some(name) => {
                    if name.as_str().unicode_len() == 0 {
                        Err(
                            DecodeError::MalformedDocument { kind: MalformedKind::MissingGroupName, offset: Some(*pos) },
                        )
                    } else {
                        match decls_from_exec(toks, i + 1, *pos) {
                            Err(e) => Err(e),
                            Ok((ds, end)) => Ok(
                                (
                                    ValidationRulesGroupSettings {
                                        group: name,
                                        validation_rules: ds,
                                    },
                                    end,
                                ),
                            ),
                        }
                    }
                },
            }
        },
    }
}

fn groups_from_exec(toks: &Vec<XmlToken>, j: usize, p: usize) -> (r: Result<
    (Vec<ValidationRulesGroupSettings>, usize),
    DecodeError,
>)
    requires
        j <= toks@.len(),
    ensures
        match r {
            Ok(t) => groups_from(toks_view(toks@), j as int, p as int) == Ok::<
                (Seq<GroupV>, int),
                DecodeErrorV,
            >((t.0@.map_values(|g: ValidationRulesGroupSettings| g@), t.1 as int)) && j < t.1
                <= toks@.len(),
            Err(e) => groups_from(toks_view(toks@), j as int, p as int) matches Err(ev) && ev == e@,
        },
    decreases toks@.len() - j,
{
    let n = toks.len();
    if j >= n {
        return Err(DecodeError::MalformedDocument { kind: MalformedKind::UnexpectedEnd, offset: Some(p) });
    }
    proof {
        assert(toks_view(toks@)[j as int] == toks@[j as int]@);
    }
    match &toks[j] {
        XmlToken::Close { name: n2, pos: p2 } => {
            if str_eq(n2.as_str(), "Groups") {
                proof {
                    assert(Seq::<ValidationRulesGroupSettings>::empty().map_values(
                        |g: ValidationRulesGroupSettings| g@,
                    ) =~= Seq::<GroupV>::empty());
                }
                Ok((Vec::new(), j + 1))
            } else {
                Err(
                    DecodeError::MalformedDocument { kind: MalformedKind::MismatchedTag, offset: Some(*p2) },
                )
            }
        },
        XmlToken::SelfClose { name: n2, .. } | XmlToken::Open { name: n2, .. } => {
        if str_eq(n2.as_str(), "ValidationRulesGroup") {
            match group_at_exec(toks, j) {
                Err(e) => Err(e),
                Ok((g, m)) => {
                    proof {
                        assert(tadv(toks@.len() as int, j as int, m as int) == m as int);
                    }
                    match groups_from_exec(toks, m, p) {
                        Err(e) => Err(e),
                        Ok((gs, end)) => {
                            let ghost gs0 = gs@;
                            let mut gs = gs;
                            gs.insert(0, g);
                            proof {
                                assert(gs@.map_values(|g: ValidationRulesGroupSettings| g@)
                                    =~= seq![g@] + gs0.map_values(
                                    |g: ValidationRulesGroupSettings| g@,
                                ));
                            }
                            Ok((gs, end))
                        },
                    }
                },
            }
        } else {
            match elem_end_exec(toks, j) {
                Err(f) => Err(DecodeError::MalformedDocument { kind: f.0, offset: Some(f.1) }),
                Ok(m) => {
                    proof {
                        assert(tadv(toks@.len() as int, j as int, m as int) == m as int);
                    }
                    groups_from_exec(toks, m, p)
                },
            }
        }
        },
    }
}

fn decode_document_exec(toks: &Vec<XmlToken>) -> (r: Result<Config, DecodeError>)
    ensures
        match r {
            Ok(c) => decode_document(toks_view(toks@)) == Ok::<ConfigV, DecodeErrorV>(c@),
            Err(e) => decode_document(toks_view(toks@)) matches Err(ev) && ev == e@,
        },
{
    if toks.len() == 0 {
        return Err(DecodeError::MalformedDocument { kind: MalformedKind::MissingRoot, offset: None });
    }
    proof {
        assert(toks_view(toks@)[0] == toks@[0]@);
    }
    let (rn, rp): (&String, usize) = match &toks[0] {
        XmlToken::Close { pos: p2, .. } => {
            return Err(
                DecodeError::MalformedDocument { kind: MalformedKind::MismatchedTag, offset: Some(*p2) },
            );
        },
        XmlToken::SelfClose { pos, .. } => {
            return Err(
                DecodeError::MalformedDocument { kind: MalformedKind::MissingValidationRules, offset: Some(*pos) },
            );
        },
        XmlToken::Open { name, pos, .. } => (name, *pos),
    };
    let iv = match find_named_child_exec(toks, 1, rn.as_str(), rp, "ValidationRules") {
        Err(e) => {
            return Err(e);
        },
        Ok(None) => {
            return Err(
                DecodeError::MalformedDocument { kind: MalformedKind::MissingValidationRules, offset: Some(rp) },
            );
        },
        Ok(Some(iv)) => iv,
    };
    proof {
        assert(toks_view(toks@)[iv as int] == toks@[iv as int]@);
    }
    let pv = match &toks[iv] {
        XmlToken::SelfClose { pos, .. } => {
            return Err(
                DecodeError::MalformedDocument { kind: MalformedKind::MissingGroups, offset: Some(*pos) },
            );
        },
        XmlToken::Close { pos: p2, .. } => {
            return Err(
                DecodeError::MalformedDocument { kind: MalformedKind::MismatchedTag, offset: Some(*p2) },
            );
        },
        XmlToken::Open { pos, .. } => *pos,
    };
    let ig = match find_named_child_exec(toks, iv + 1, "ValidationRules", pv, "Groups") {
        Err(e) => {
            return Err(e);
        },
        Ok(None) => {
            return Err(
                DecodeError::MalformedDocument { kind: MalformedKind::MissingGroups, offset: Some(pv) },
            );
        },
        Ok(Some(ig)) => ig,
    };
    proof {
        assert(toks_view(toks@)[ig as int] == toks@[ig as int]@);
    }
    let gs: Vec<ValidationRulesGroupSettings> = match &toks[ig] {
        XmlToken::SelfClose { .. } => Vec::new(),
        XmlToken::Close { pos: p2, .. } => {
            return Err(
                DecodeError::MalformedDocument { kind: MalformedKind::MismatchedTag, offset: Some(*p2) },
            );
        },
        XmlToken::Open { pos, .. } => {
            let pg = *pos;
            match groups_from_exec(toks, ig + 1, pg) {
                Err(e) => {
                    return Err(e);
                },
                Ok((gs, _)) => gs,
            }
        },
    };
    proof {
        assert(Seq::<ValidationRulesGroupSettings>::empty().map_values(
            |g: ValidationRulesGroupSettings| g@,
        ) =~= Seq::<GroupV>::empty());
    }
    Ok(
        Config {
            validation_rules: ValidationRulesContainer {
                groups: GroupsContainer { validation_rules_groups: gs },
            },
        },
    )
}

/// Decodes a document text into a snapshot: the exact decode contract of
/// the model, as `config_decode` states it.
pub fn decode_config(xml: &str) -> (r: Result<Config, DecodeError>)
    ensures
        match r {
            Ok(c) => config_decode(xml@) == Ok::<ConfigV, DecodeErrorV>(c@),
            Err(e) => config_decode(xml@) matches Err(ev) && ev == e@,
        },
{
    match scan_xml(xml) {
        Err(e) => Err(e),
        Ok(toks) => decode_document_exec(&toks),
    }
}

} // verus!
