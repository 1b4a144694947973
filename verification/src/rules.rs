//! Rules that decide whether a library or an argument applies on this
//! platform (Windows, x86_64, with no optional launcher feature enabled).
use vstd::prelude::*;
use crate::manifest::{argument_list_values, ArgumentValue, Library, OsRule, Rule};
use crate::text::str_eq;

verus! {

/// The operating system name rules are matched against.
pub const OS_NAME: &'static str = "windows";

/// The architecture rules are matched against.
pub const OS_ARCH: &'static str = "x86_64";

/// An OS condition holds: each of name and architecture is absent or equal
/// to this platform's.
pub open spec fn os_matches(os: Option<OsRule>) -> bool {
    match os {
        None => true,
        Some(o) => {
            &&& (o.name matches Some(n) ==> n@ == OS_NAME@)
            &&& (o.arch matches Some(a) ==> a@ == OS_ARCH@)
        },
    }
}

/// Feature conditions hold: no launcher feature is enabled, so each listed
/// feature must be required absent.
pub open spec fn features_match(features: Option<Vec<(String, bool)>>) -> bool {
    match features {
        None => true,
        Some(f) => forall|i: int| 0 <= i < f@.len() ==> !(#[trigger] f@[i]).1,
    }
}

/// A rule applies to this platform.
pub open spec fn rule_applies(rule: Rule) -> bool {
    os_matches(rule.os) && features_match(rule.features)
}

/// Whether a rule's conditions hold on this platform.
pub fn rule_matches(rule: &Rule) -> (r: bool)
    ensures
        r == rule_applies(*rule),
{
    if let Some(os) = &rule.os {
        if let Some(name) = &os.name {
            if !str_eq(name.as_str(), OS_NAME) {
                return false;
            }
        }
        if let Some(arch) = &os.arch {
            if !str_eq(arch.as_str(), OS_ARCH) {
                return false;
            }
        }
    }
    if let Some(features) = &rule.features {
        let n = features.len();
        for i in 0..n
            invariant
                n == features@.len(),
                rule.features == Some(*features),
                forall|j: int| 0 <= j < i ==> !(#[trigger] features@[j]).1,
        {
            let present = false;
            if present != features[i].1 {
                let ghost f = rule.features->0;
                assert(f == *features);
                assert(f@[i as int].1);
                assert(!features_match(rule.features));
                return false;
            }
        }
    }
    true
}

/// The verdict of a rule list: the last rule that applies decides, by its
/// action being `allow`; when none applies, the item is left out.
pub open spec fn rules_allow(rules: Seq<Rule>) -> bool
    decreases rules.len(),
{
    if rules.len() == 0 {
        false
    } else if rule_applies(rules.last()) {
        rules.last().action@ == "allow"@
    } else {
        rules_allow(rules.drop_last())
    }
}

/// Whether an item with these rules is included: always when it has none.
pub open spec fn included(rules: Option<Seq<Rule>>) -> bool {
    match rules {
        None => true,
        Some(rs) => rules_allow(rs),
    }
}

/// Evaluates the rules of a library or argument.
pub fn should_include(rules: Option<&[Rule]>) -> (r: bool)
    ensures
        r == included(
            match rules {
                None => None,
                Some(rs) => Some(rs@),
            },
        ),
{
    let rules = match rules {
        None => {
            return true;
        },
        Some(rs) => rs,
    };
    let mut allow = false;
    let n = rules.len();
    for i in 0..n
        invariant
            n == rules@.len(),
            allow == rules_allow(rules@.take(i as int)),
    {
        assert(rules@.take(i + 1).drop_last() =~= rules@.take(i as int));
        assert(rules@.take(i + 1).last() == rules@[i as int]);
        if rule_matches(&rules[i]) {
            allow = str_eq(rules[i].action.as_str(), "allow");
        }
    }
    assert(rules@.take(n as int) =~= rules@);
    allow
}

/// A library is used on this platform.
pub open spec fn library_used(library: Library) -> bool {
    included(
        match library.rules {
            None => None,
            Some(rs) => Some(rs@),
        },
    )
}

/// Whether a library applies on this platform.
pub fn library_applies(library: &Library) -> (r: bool)
    ensures
        r == library_used(*library),
{
    match &library.rules {
        None => should_include(None),
        Some(rs) => should_include(Some(rs.as_slice())),
    }
}

/// The arguments one entry contributes.
pub open spec fn argument_values(arg: ArgumentValue) -> Seq<Seq<char>> {
    match arg {
        ArgumentValue::Plain(s) => seq![s@],
        ArgumentValue::Conditional { rules, value } => if rules_allow(rules@) {
            argument_list_values(value)
        } else {
            Seq::<Seq<char>>::empty()
        },
    }
}

/// The arguments of a list, in order, with conditional ones kept only when
/// their rules allow them.
pub open spec fn resolved_arguments(args: Seq<ArgumentValue>) -> Seq<Seq<char>>
    decreases args.len(),
{
    if args.len() == 0 {
        Seq::<Seq<char>>::empty()
    } else {
        resolved_arguments(args.drop_last()) + argument_values(args.last())
    }
}

/// Resolves a list of possibly conditional arguments.
pub fn resolve_argument_values(args: &[ArgumentValue]) -> (r: Vec<String>)
    ensures
        r.deep_view() == resolved_arguments(args@),
{
    let mut result: Vec<String> = Vec::new();
    let n = args.len();
    for i in 0..n
        invariant
            n == args@.len(),
            result.deep_view() == resolved_arguments(args@.take(i as int)),
    {
        assert(args@.take(i + 1).drop_last() =~= args@.take(i as int));
        assert(args@.take(i + 1).last() == args@[i as int]);
        let ghost before = result.deep_view();
        match &args[i] {
            ArgumentValue::Plain(s) => {
                result.push(s.clone());
                assert(result.deep_view() =~= before + seq![s@]);
            },
            ArgumentValue::Conditional { rules, value } => {
                if should_include(Some(rules.as_slice())) {
                    let values = clone_list(value).into_vec();
                    let mut values = values;
                    let ghost vdv = values.deep_view();
                    result.append(&mut values);
                    assert(result.deep_view() =~= before + vdv);
                } else {
                    assert(result.deep_view() =~= before + Seq::<Seq<char>>::empty());
                }
            },
        }
    }
    assert(args@.take(n as int) =~= args@);
    result
}

/// The last rule that applies decides: a rule list allows an item exactly
/// when some rule applies with action `allow` and no later rule applies.
pub proof fn lemma_last_applicable_rule_decides(rules: Seq<Rule>)
    ensures
        rules_allow(rules) <==> exists|i: int|
            0 <= i < rules.len() && rule_applies(#[trigger] rules[i]) && rules[i].action@ == "allow"@
                && forall|j: int| i < j < rules.len() ==> !rule_applies(#[trigger] rules[j]),
    decreases rules.len(),
{
    if rules.len() > 0 {
        let init = rules.drop_last();
        let last: int = rules.len() - 1;
        lemma_last_applicable_rule_decides(init);
        if rule_applies(rules.last()) {
            if rules.last().action@ == "allow"@ {
                assert(rule_applies(rules[last]));
            } else {
                assert forall|i: int|
                    0 <= i < rules.len() && rule_applies(#[trigger] rules[i]) && rules[i].action@ == "allow"@
                        implies exists|j: int| i < j < rules.len() && rule_applies(#[trigger] rules[j]) by {
                    assert(rule_applies(rules[last]));
                }
            }
        } else {
            if rules_allow(rules) {
                let i = choose|i: int|
                    0 <= i < init.len() && rule_applies(#[trigger] init[i]) && init[i].action@ == "allow"@
                        && forall|j: int| i < j < init.len() ==> !rule_applies(#[trigger] init[j]);
                assert(rule_applies(rules[i]));
                assert forall|j: int| i < j < rules.len() implies !rule_applies(#[trigger] rules[j]) by {
                    if j < last {
                        assert(rules[j] == init[j]);
                    }
                }
            } else {
                assert forall|i: int|
                    0 <= i < rules.len() && rule_applies(#[trigger] rules[i]) && rules[i].action@ == "allow"@
                        implies exists|j: int| i < j < rules.len() && rule_applies(#[trigger] rules[j]) by {
                    assert(i < last);
                    assert(rules[i] == init[i]);
                    assert(rule_applies(init[i]));
                    let j = choose|j: int| i < j < init.len() && rule_applies(#[trigger] init[j]);
                    assert(rules[j] == init[j]);
                }
            }
        }
    }
}

/// An empty list resolves to no arguments, and each entry of a list adds at
/// the end of the resolved arguments: a plain string itself; a conditional entry whose rules allow
/// it its whole value (one string, or every string of a list, in order),
/// whatever the shape of that value; a refused conditional entry nothing.
pub proof fn lemma_argument_contribution(args: Seq<ArgumentValue>, arg: ArgumentValue)
    ensures
        resolved_arguments(Seq::<ArgumentValue>::empty()) == Seq::<Seq<char>>::empty(),
        resolved_arguments(args.push(arg)) == resolved_arguments(args) + match arg {
            ArgumentValue::Plain(s) => seq![s@],
            ArgumentValue::Conditional { rules: conditions, value: list } => if rules_allow(conditions@) {
                match list {
                    crate::manifest::ArgumentList::Single(s) => seq![s@],
                    crate::manifest::ArgumentList::Multiple(v) => v.deep_view(),
                }
            } else {
                Seq::<Seq<char>>::empty()
            },
        },
{
    assert(args.push(arg).drop_last() =~= args);
}

/// Resolving a list split in two resolves each part and joins the results:
/// every entry's arguments stand at its own position.
pub proof fn lemma_resolved_arguments_concat(a: Seq<ArgumentValue>, b: Seq<ArgumentValue>)
    ensures
        resolved_arguments(a + b) == resolved_arguments(a) + resolved_arguments(b),
    decreases b.len(),
{
    if b.len() == 0 {
        assert(a + b =~= a);
        assert(resolved_arguments(a) + resolved_arguments(b) =~= resolved_arguments(a));
    } else {
        lemma_resolved_arguments_concat(a, b.drop_last());
        assert((a + b).drop_last() =~= a + b.drop_last());
        assert((a + b).last() == b.last());
        assert(resolved_arguments(a + b) =~= resolved_arguments(a) + resolved_arguments(b));
    }
}

/// A copy of a list of strings.
pub fn clone_strings(v: &Vec<String>) -> (r: Vec<String>)
    ensures
        r.deep_view() == v.deep_view(),
{
    let mut r: Vec<String> = Vec::new();
    let n = v.len();
    for i in 0..n
        invariant
            n == v@.len(),
            r.deep_view() == v.deep_view().take(i as int),
    {
        let ghost before = r.deep_view();
        let c = v[i].clone();
        assert(c@ == v.deep_view()[i as int]);
        r.push(c);
        assert(r.deep_view() =~= before.push(c@));
        assert(v.deep_view().take(i + 1) =~= v.deep_view().take(i as int).push(v.deep_view()[i as int]));
    }
    assert(v.deep_view().take(n as int) =~= v.deep_view());
    r
}

fn clone_list(list: &crate::manifest::ArgumentList) -> (r: crate::manifest::ArgumentList)
    ensures
        argument_list_values(r) == argument_list_values(*list),
{
    match list {
        crate::manifest::ArgumentList::Single(s) => crate::manifest::ArgumentList::Single(s.clone()),
        crate::manifest::ArgumentList::Multiple(v) => crate::manifest::ArgumentList::Multiple(
            clone_strings(v),
        ),
    }
}

/// The classifier key of Windows x64 natives.
pub fn native_classifier_key() -> (r: &'static str)
    ensures
        r@ == "natives-windows"@,
{
    "natives-windows"
}

/// The classifier key of Windows x64 natives in newer versions.
pub fn native_classifier_key_alt() -> (r: &'static str)
    ensures
        r@ == "natives-windows-x86_64"@,
{
    "natives-windows-x86_64"
}

} // verus!
