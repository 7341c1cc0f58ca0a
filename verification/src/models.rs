//! Flags, their rules, and the environments that override them.

use vstd::prelude::*;
use serde_json::Value;
use crate::clock::unix_now;
use crate::json::{json_as_array, json_as_str, json_entries, json_is_null, json_map_get, json_map_insert_bool, json_map_new, json_shape, json_shapes, JsonModel};
use crate::text::{copy_texts, is_substring, opt_string_text, opt_text, text_contains, text_eq, texts, texts_contain};

verus! {

/// A comparison against one or several fixed texts.
#[derive(Debug, PartialEq, Eq, Hash)]
pub enum Operator {
    Is(String),
    IsNot(String),
    Contains(String),
    IsOneOf(Vec<String>),
    IsNotOneOf(Vec<String>),
}

/// The mathematical value of an [`Operator`].
pub enum OperatorModel {
    Is(Seq<char>),
    IsNot(Seq<char>),
    Contains(Seq<char>),
    IsOneOf(Seq<Seq<char>>),
    IsNotOneOf(Seq<Seq<char>>),
}

impl View for Operator {
    type V = OperatorModel;

    open spec fn view(&self) -> OperatorModel {
        match self {
            Operator::Is(x) => OperatorModel::Is(x@),
            Operator::IsNot(x) => OperatorModel::IsNot(x@),
            Operator::Contains(x) => OperatorModel::Contains(x@),
            Operator::IsOneOf(xs) => OperatorModel::IsOneOf(texts(xs@)),
            Operator::IsNotOneOf(xs) => OperatorModel::IsNotOneOf(texts(xs@)),
        }
    }
}

impl Clone for Operator {
    fn clone(&self) -> (r: Self)
        ensures
            r@ == self@,
    {
        match self {
            Operator::Is(x) => Operator::Is(x.clone()),
            Operator::IsNot(x) => Operator::IsNot(x.clone()),
            Operator::Contains(x) => Operator::Contains(x.clone()),
            Operator::IsOneOf(xs) => Operator::IsOneOf(copy_texts(xs)),
            Operator::IsNotOneOf(xs) => Operator::IsNotOneOf(copy_texts(xs)),
        }
    }
}

/// Whether an operator accepts one text of the context, or the absence of
/// a text (`None`).
///
/// An absent text is equal to nothing and a member of nothing, and it
/// contains what the empty text contains.
pub open spec fn operator_accepts(op: OperatorModel, value: Option<Seq<char>>) -> bool {
    match op {
        OperatorModel::Is(x) => value == Some(x),
        OperatorModel::IsNot(x) => value != Some(x),
        OperatorModel::Contains(x) => is_substring(
            match value {
                Some(v) => v,
                None => Seq::empty(),
            },
            x,
        ),
        OperatorModel::IsOneOf(xs) => value is Some && xs.contains(value->0),
        OperatorModel::IsNotOneOf(xs) => value is None || !xs.contains(value->0),
    }
}

/// Whether an operator accepts a context value of any shape.
///
/// `null` counts as an absent text. A list is accepted only if the operator
/// accepts every one of its elements; the empty list is therefore accepted.
/// Booleans, numbers and objects are never accepted.
pub open spec fn value_accepted(op: OperatorModel, value: JsonModel) -> bool
    decreases value,
{
    match value {
        JsonModel::Null => operator_accepts(op, None),
        JsonModel::Text(t) => operator_accepts(op, Some(t)),
        JsonModel::List(items) => forall|i: int|
            0 <= i < items.len() ==> value_accepted(op, #[trigger] items[i]),
        JsonModel::Bool(_) => false,
        JsonModel::Other => false,
    }
}

/// One predicate on the context: the field it reads and the comparison it
/// makes.
#[derive(Debug, PartialEq, Eq, Hash)]
pub struct Rule {
    pub parameter: String,
    pub operator: Operator,
}

/// The mathematical value of a [`Rule`].
pub struct RuleModel {
    pub parameter: Seq<char>,
    pub operator: OperatorModel,
}

impl View for Rule {
    type V = RuleModel;

    open spec fn view(&self) -> RuleModel {
        RuleModel { parameter: self.parameter@, operator: self.operator@ }
    }
}

impl Clone for Rule {
    fn clone(&self) -> (r: Self)
        ensures
            r@ == self@,
    {
        Rule { parameter: self.parameter.clone(), operator: self.operator.clone() }
    }
}

/// Whether a rule holds in a context: the operator is applied to the value of
/// the rule's field, or to the absence of a text where the context has no
/// such field.
pub open spec fn rule_holds(rule: RuleModel, context: Map<Seq<char>, JsonModel>) -> bool {
    if context.dom().contains(rule.parameter) {
        value_accepted(rule.operator, context[rule.parameter])
    } else {
        operator_accepts(rule.operator, None)
    }
}

impl Rule {
    /// Evaluates the rule against a request context.
    pub fn check(&self, input: &serde_json::Map<String, Value>) -> (r: bool)
        ensures
            r == rule_holds(self@, json_entries(*input)),
    {
        match json_map_get(input, self.parameter.as_str()) {
            None => self.validate_string(None),
            Some(value) => self.validate(value),
        }
    }

    /// Evaluates the rule's operator against one context value.
    pub fn validate(&self, value: &Value) -> (r: bool)
        ensures
            r == value_accepted(self.operator@, json_shape(*value)),
        decreases json_shape(*value),
    {
        if json_is_null(value) {
            self.validate_string(None)
        } else if let Some(text) = json_as_str(value) {
            self.validate_string(Some(text))
        } else if let Some(items) = json_as_array(value) {
            let ghost shapes = json_shapes(items@);
            let mut i: usize = 0;
            while i < items.len()
                invariant
                    i <= items.len(),
                    shapes == json_shapes(items@),
                    json_shape(*value) == JsonModel::List(shapes),
                    forall|j: int| 0 <= j < i ==> value_accepted(self.operator@, #[trigger] shapes[j]),
                decreases items.len() - i,
            {
                proof {
                    assert(shapes[i as int] == json_shape(items@[i as int]));
                    assert(decreases_to!(shapes => shapes[i as int]));
                    assert(decreases_to!(json_shape(*value) => json_shape(*value)->List_0));
                }
                if !self.validate(&items[i]) {
                    assert(!value_accepted(self.operator@, shapes[i as int]));
                    assert(!value_accepted(self.operator@, JsonModel::List(shapes)));
                    return false;
                }
                i += 1;
            }
            true
        } else {
            false
        }
    }

    /// Evaluates the rule's operator against one text of the context, or
    /// against the absence of a text.
    pub fn validate_string(&self, value: Option<&str>) -> (r: bool)
        ensures
            r == operator_accepts(self.operator@, opt_text(value)),
    {
        proof {
            reveal_strlit("");
            assert(""@ =~= Seq::<char>::empty());
        }
        match &self.operator {
            Operator::Is(x) => match value {
                Some(v) => text_eq(v, x.as_str()),
                None => false,
            },
            Operator::IsNot(x) => match value {
                Some(v) => !text_eq(v, x.as_str()),
                None => true,
            },
            Operator::Contains(x) => match value {
                Some(v) => text_contains(v, x.as_str()),
                None => text_contains("", x.as_str()),
            },
            Operator::IsOneOf(xs) => match value {
                Some(v) => texts_contain(xs, v),
                None => false,
            },
            Operator::IsNotOneOf(xs) => match value {
                Some(v) => !texts_contain(xs, v),
                None => true,
            },
        }
    }
}

/// The mathematical values of a sequence of rules, element by element.
pub open spec fn rule_models(rules: Seq<Rule>) -> Seq<RuleModel> {
    rules.map_values(|r: Rule| r@)
}

/// An owned copy of every rule, in order.
pub fn copy_rules(source: &Vec<Rule>) -> (r: Vec<Rule>)
    ensures
        rule_models(r@) == rule_models(source@),
{
    let mut out: Vec<Rule> = Vec::new();
    let mut i: usize = 0;
    while i < source.len()
        invariant
            i <= source.len(),
            out.len() == i,
            forall|j: int| 0 <= j < i ==> out@[j]@ == source@[j]@,
        decreases source.len() - i,
    {
        out.push(source[i].clone());
        i += 1;
    }
    assert(rule_models(out@) =~= rule_models(source@));
    out
}

/// An owned copy of an optional string.
pub fn copy_opt_text(source: &Option<String>) -> (r: Option<String>)
    ensures
        opt_string_text(r) == opt_string_text(*source),
{
    match source {
        Some(s) => Some(s.clone()),
        None => None,
    }
}

/// A named switch with the rules that a context has to meet for it to be on.
///
/// `id` is the identifier that the store gave the flag, absent before it was
/// stored. The two timestamps are whole seconds since the Unix epoch.
#[derive(Debug, PartialEq, Eq, Hash)]
pub struct FeatureFlag {
    pub id: Option<String>,
    pub name: String,
    pub label: String,
    pub enabled: bool,
    pub rules: Vec<Rule>,
    pub created_at: i64,
    pub updated_at: i64,
}

/// The mathematical value of a [`FeatureFlag`].
pub struct FlagModel {
    pub id: Option<Seq<char>>,
    pub name: Seq<char>,
    pub label: Seq<char>,
    pub enabled: bool,
    pub rules: Seq<RuleModel>,
    pub created_at: int,
    pub updated_at: int,
}

impl View for FeatureFlag {
    type V = FlagModel;

    open spec fn view(&self) -> FlagModel {
        FlagModel {
            id: opt_string_text(self.id),
            name: self.name@,
            label: self.label@,
            enabled: self.enabled,
            rules: rule_models(self.rules@),
            created_at: self.created_at as int,
            updated_at: self.updated_at as int,
        }
    }
}

impl Clone for FeatureFlag {
    fn clone(&self) -> (r: Self)
        ensures
            r@ == self@,
    {
        FeatureFlag {
            id: copy_opt_text(&self.id),
            name: self.name.clone(),
            label: self.label.clone(),
            enabled: self.enabled,
            rules: copy_rules(&self.rules),
            created_at: self.created_at,
            updated_at: self.updated_at,
        }
    }
}

/// Whether a flag is on in a context: it is enabled and every one of its
/// rules holds. A disabled flag is off whatever its rules say, and an enabled
/// flag without rules is on.
pub open spec fn flag_holds(flag: FlagModel, context: Map<Seq<char>, JsonModel>) -> bool {
    flag.enabled && forall|i: int|
        0 <= i < flag.rules.len() ==> rule_holds(#[trigger] flag.rules[i], context)
}

impl FeatureFlag {
    /// A flag that was not stored yet, stamped with the current time.
    pub fn new(name: &str, label: &str, enabled: bool, rules: Vec<Rule>) -> (r: Self)
        ensures
            r@.id is None,
            r@.name == name@,
            r@.label == label@,
            r@.enabled == enabled,
            r@.rules == rule_models(rules@),
    {
        let created_at: i64 = unix_now();
        let updated_at: i64 = unix_now();
        FeatureFlag::stamped(name, label, enabled, rules, created_at, updated_at)
    }

    /// A flag that was not stored yet, with the given timestamps.
    pub fn stamped(
        name: &str,
        label: &str,
        enabled: bool,
        rules: Vec<Rule>,
        created_at: i64,
        updated_at: i64,
    ) -> (r: Self)
        ensures
            r@ == (FlagModel {
                id: None,
                name: name@,
                label: label@,
                enabled,
                rules: rule_models(rules@),
                created_at: created_at as int,
                updated_at: updated_at as int,
            }),
    {
        FeatureFlag {
            id: None,
            name: name.to_owned(),
            label: label.to_owned(),
            enabled,
            rules,
            created_at,
            updated_at,
        }
    }

    /// Whether the flag is on in a request context.
    pub fn is_context_valid(&self, context: &serde_json::Map<String, Value>) -> (r: bool)
        ensures
            r == flag_holds(self@, json_entries(*context)),
            !self.enabled ==> !r,
    {
        if !self.enabled {
            return false;
        }
        let mut i: usize = 0;
        while i < self.rules.len()
            invariant
                i <= self.rules.len(),
                forall|j: int|
                    0 <= j < i ==> rule_holds(#[trigger] self@.rules[j], json_entries(*context)),
            decreases self.rules.len() - i,
        {
            assert(self@.rules[i as int] == self.rules@[i as int]@);
            if !self.rules[i].check(context) {
                return false;
            }
            i += 1;
        }
        true
    }
}

/// The mathematical values of a sequence of flags, element by element.
pub open spec fn flag_models(flags: Seq<FeatureFlag>) -> Seq<FlagModel> {
    flags.map_values(|f: FeatureFlag| f@)
}

/// An owned copy of every flag, in order.
pub fn copy_flags(source: &Vec<FeatureFlag>) -> (r: Vec<FeatureFlag>)
    ensures
        flag_models(r@) == flag_models(source@),
{
    let mut out: Vec<FeatureFlag> = Vec::new();
    let mut i: usize = 0;
    while i < source.len()
        invariant
            i <= source.len(),
            out.len() == i,
            forall|j: int| 0 <= j < i ==> out@[j]@ == source@[j]@,
        decreases source.len() - i,
    {
        out.push(source[i].clone());
        i += 1;
    }
    assert(flag_models(out@) =~= flag_models(source@));
    out
}

/// Whether no two flags of the sequence share a name.
pub open spec fn names_distinct(flags: Seq<FlagModel>) -> bool {
    forall|i: int, j: int| 0 <= i < j < flags.len() ==> flags[i].name != flags[j].name
}

/// Whether some flag of the sequence has the given name.
pub open spec fn has_name(flags: Seq<FlagModel>, name: Seq<char>) -> bool {
    exists|i: int| 0 <= i < flags.len() && #[trigger] flags[i].name == name
}

/// The flags of the sequence that do not have the given name, in order.
pub open spec fn without_name(flags: Seq<FlagModel>, name: Seq<char>) -> Seq<FlagModel> {
    flags.filter(|f: FlagModel| f.name != name)
}

/// The sequence after `flag` was put into it: flags of the same name leave,
/// and `flag` comes last.
pub open spec fn with_flag(flags: Seq<FlagModel>, flag: FlagModel) -> Seq<FlagModel> {
    without_name(flags, flag.name).push(flag)
}

/// The sequence after each of `added` was put into it, first to last.
pub open spec fn with_flags(flags: Seq<FlagModel>, added: Seq<FlagModel>) -> Seq<FlagModel>
    decreases added.len(),
{
    if added.len() == 0 {
        flags
    } else {
        with_flag(with_flags(flags, added.drop_last()), added.last())
    }
}

/// What evaluating each flag of the sequence in a context gives: a map from
/// flag name to a JSON boolean. Where two flags share a name, the later one
/// decides.
pub open spec fn flag_states(flags: Seq<FlagModel>, context: Map<Seq<char>, JsonModel>) -> Map<
    Seq<char>,
    JsonModel,
>
    decreases flags.len(),
{
    if flags.len() == 0 {
        Map::empty()
    } else {
        flag_states(flags.drop_last(), context).insert(
            flags.last().name,
            JsonModel::Bool(flag_holds(flags.last(), context)),
        )
    }
}

/// A deployment environment with the flags it defines for itself.
#[derive(Debug)]
pub struct Environment {
    pub id: Option<String>,
    pub name: String,
    pub flags: Vec<FeatureFlag>,
}

/// The mathematical value of an [`Environment`].
pub struct EnvironmentModel {
    pub id: Option<Seq<char>>,
    pub name: Seq<char>,
    pub flags: Seq<FlagModel>,
}

impl View for Environment {
    type V = EnvironmentModel;

    open spec fn view(&self) -> EnvironmentModel {
        EnvironmentModel {
            id: opt_string_text(self.id),
            name: self.name@,
            flags: flag_models(self.flags@),
        }
    }
}

/// The flags of `source` that do not have the given name, copied in order.
pub fn flags_without(source: &Vec<FeatureFlag>, name: &str) -> (r: Vec<FeatureFlag>)
    ensures
        flag_models(r@) == without_name(flag_models(source@), name@),
{
    let ghost keep = |f: FlagModel| f.name != name@;
    let ghost all = flag_models(source@);
    let mut out: Vec<FeatureFlag> = Vec::new();
    let mut i: usize = 0;
    proof {
        reveal(Seq::filter);
        assert(all.take(0).filter(keep) =~= Seq::<FlagModel>::empty());
    }
    while i < source.len()
        invariant
            i <= source.len(),
            all == flag_models(source@),
            keep == (|f: FlagModel| f.name != name@),
            flag_models(out@) == all.take(i as int).filter(keep),
        decreases source.len() - i,
    {
        proof {
            reveal(Seq::filter);
            assert(all.take(i + 1).drop_last() =~= all.take(i as int));
            assert(all.take(i + 1).last() == source@[i as int]@);
        }
        let ghost before = out@;
        if !text_eq(source[i].name.as_str(), name) {
            out.push(source[i].clone());
            assert(flag_models(out@) =~= flag_models(before).push(source@[i as int]@));
        }
        i += 1;
    }
    assert(all.take(source.len() as int) =~= all);
    out
}

impl Environment {
    /// Whether no two flags of the environment share a name.
    pub open spec fn well_formed(&self) -> bool {
        names_distinct(self@.flags)
    }

    /// An environment that was not stored yet and defines no flag.
    pub fn new(name: &str) -> (r: Self)
        ensures
            r@ == (EnvironmentModel { id: None, name: name@, flags: Seq::empty() }),
            r.well_formed(),
    {
        let r = Environment { id: None, name: name.to_owned(), flags: Vec::new() };
        assert(r@.flags =~= Seq::empty());
        r
    }

    /// Puts a copy of `flag` into the environment, in place of any flag of
    /// the same name.
    pub fn add_flag(&mut self, flag: &FeatureFlag)
        ensures
            final(self)@ == (EnvironmentModel {
                flags: with_flag(old(self)@.flags, flag@),
                ..old(self)@
            }),
            old(self).well_formed() ==> final(self).well_formed(),
    {
        let mut kept = flags_without(&self.flags, flag.name.as_str());
        let ghost before = kept@;
        kept.push(flag.clone());
        proof {
            assert(flag_models(kept@) =~= flag_models(before).push(flag@));
            lemma_with_flag_keeps_names_distinct(old(self)@.flags, flag@);
        }
        self.flags = kept;
    }

    /// Takes the flag that has the name of `flag` out of the environment.
    pub fn remove_flag(&mut self, flag: &FeatureFlag)
        ensures
            final(self)@ == (EnvironmentModel {
                flags: without_name(old(self)@.flags, flag@.name),
                ..old(self)@
            }),
            old(self).well_formed() ==> final(self).well_formed(),
    {
        self.remove_flag_by_name(flag.name.as_str());
    }

    /// Takes the flag of the given name out of the environment.
    pub fn remove_flag_by_name(&mut self, flag_name: &str)
        ensures
            final(self)@ == (EnvironmentModel {
                flags: without_name(old(self)@.flags, flag_name@),
                ..old(self)@
            }),
            old(self).well_formed() ==> final(self).well_formed(),
    {
        let kept = flags_without(&self.flags, flag_name);
        proof {
            lemma_without_name(old(self)@.flags, flag_name@);
        }
        self.flags = kept;
    }

    /// Replaces the flags of the environment by the given ones, put in one
    /// after the other, so that of two flags with one name the later stays.
    pub fn set_flags(&mut self, flags: Vec<FeatureFlag>)
        ensures
            final(self)@ == (EnvironmentModel {
                flags: with_flags(Seq::empty(), flag_models(flags@)),
                ..old(self)@
            }),
            final(self).well_formed(),
            names_distinct(flag_models(flags@)) ==> final(self)@.flags == flag_models(flags@),
    {
        let ghost added = flag_models(flags@);
        self.flags = Vec::new();
        assert(self@.flags =~= Seq::empty());
        let mut i: usize = 0;
        while i < flags.len()
            invariant
                i <= flags.len(),
                added == flag_models(flags@),
                self@.id == old(self)@.id,
                self@.name == old(self)@.name,
                self@.flags == with_flags(Seq::empty(), added.take(i as int)),
                self.well_formed(),
            decreases flags.len() - i,
        {
            proof {
                assert(added.take(i + 1).drop_last() =~= added.take(i as int));
                assert(added.take(i + 1).last() == flags@[i as int]@);
            }
            self.add_flag(&flags[i]);
            i += 1;
        }
        proof {
            assert(added.take(flags.len() as int) =~= added);
            if names_distinct(added) {
                lemma_with_flags_of_distinct(added);
            }
        }
    }

    /// Evaluates every flag of the environment in a request context.
    pub fn get_flags_from_context(&self, context: &serde_json::Map<String, Value>) -> (r:
        serde_json::Map<String, Value>)
        ensures
            json_entries(r) == flag_states(self@.flags, json_entries(*context)),
    {
        let ghost all = self@.flags;
        let mut states = json_map_new();
        let mut i: usize = 0;
        assert(json_entries(states) =~= flag_states(all.take(0), json_entries(*context)));
        while i < self.flags.len()
            invariant
                i <= self.flags.len(),
                all == self@.flags,
                json_entries(states) == flag_states(all.take(i as int), json_entries(*context)),
            decreases self.flags.len() - i,
        {
            proof {
                assert(all.take(i + 1).drop_last() =~= all.take(i as int));
                assert(all.take(i + 1).last() == self.flags@[i as int]@);
            }
            let flag = &self.flags[i];
            let state = flag.is_context_valid(context);
            json_map_insert_bool(&mut states, flag.name.clone(), state);
            i += 1;
        }
        assert(all.take(self.flags.len() as int) =~= all);
        states
    }
}

/// Every flag that stays after `without_name` was in the sequence before, in
/// the same order, and none of them has the name; so distinct names stay
/// distinct.
pub proof fn lemma_without_name(flags: Seq<FlagModel>, name: Seq<char>)
    ensures
        !has_name(without_name(flags, name), name),
        forall|n: Seq<char>|
            n != name ==> (has_name(without_name(flags, name), n) <==> has_name(flags, n)),
        names_distinct(flags) ==> names_distinct(without_name(flags, name)),
        !has_name(flags, name) ==> without_name(flags, name) == flags,
    decreases flags.len(),
{
    reveal(Seq::filter);
    let keep = |f: FlagModel| f.name != name;
    if flags.len() > 0 {
        let rest = flags.drop_last();
        let last = flags.last();
        lemma_without_name(rest, name);
        let kept = without_name(rest, name);
        let out = without_name(flags, name);
        assert(out == if keep(last) { kept.push(last) } else { kept });
        assert forall|n: Seq<char>| has_name(out, n) implies (n != name && has_name(flags, n)) by {
            let i = choose|i: int| 0 <= i < out.len() && #[trigger] out[i].name == n;
            if i < kept.len() {
                assert(kept[i].name == n);
                assert(has_name(kept, n));
                assert(n != name);
                assert(has_name(rest, n));
                let j = choose|j: int| 0 <= j < rest.len() && #[trigger] rest[j].name == n;
                assert(flags[j].name == n);
            } else {
                assert(keep(last));
                assert(flags[flags.len() - 1].name == n);
            }
        }
        assert forall|n: Seq<char>| n != name && has_name(flags, n) implies has_name(out, n) by {
            let j = choose|j: int| 0 <= j < flags.len() && #[trigger] flags[j].name == n;
            if j < rest.len() {
                assert(rest[j].name == n);
                assert(has_name(rest, n));
                let i = choose|i: int| 0 <= i < kept.len() && #[trigger] kept[i].name == n;
                assert(out[i].name == n);
            } else {
                assert(out[out.len() - 1].name == n);
            }
        }
        if names_distinct(flags) {
            assert(names_distinct(rest)) by {
                assert forall|i: int, j: int| 0 <= i < j < rest.len() implies rest[i].name
                    != rest[j].name by {
                    assert(flags[i].name != flags[j].name);
                }
            }
            assert forall|i: int, j: int| 0 <= i < j < out.len() implies out[i].name
                != out[j].name by {
                if j < kept.len() {
                    assert(kept[i].name != kept[j].name);
                } else {
                    assert(kept[i].name == out[i].name);
                    assert(has_name(kept, out[i].name));
                    assert(has_name(rest, out[i].name));
                    let k = choose|k: int| 0 <= k < rest.len() && #[trigger] rest[k].name == out[i].name;
                    assert(flags[k].name != flags[flags.len() - 1].name);
                }
            }
        }
        if !has_name(flags, name) {
            assert(!has_name(rest, name)) by {
                if has_name(rest, name) {
                    let k = choose|k: int| 0 <= k < rest.len() && #[trigger] rest[k].name == name;
                    assert(flags[k].name == name);
                }
            }
            assert(flags[flags.len() - 1].name != name);
            assert(out =~= flags);
        }
    } else {
        assert(without_name(flags, name) =~= flags);
    }
}

/// Putting a flag into a sequence of distinct names leaves the names
/// distinct, with exactly one flag of that name: the one put in.
pub proof fn lemma_with_flag_keeps_names_distinct(flags: Seq<FlagModel>, flag: FlagModel)
    ensures
        names_distinct(flags) ==> names_distinct(with_flag(flags, flag)),
        has_name(with_flag(flags, flag), flag.name),
        forall|i: int|
            0 <= i < with_flag(flags, flag).len() && (#[trigger] with_flag(flags, flag)[i]).name
                == flag.name ==> i == with_flag(flags, flag).len() - 1,
{
    lemma_without_name(flags, flag.name);
    let kept = without_name(flags, flag.name);
    let out = with_flag(flags, flag);
    assert(out[out.len() - 1].name == flag.name);
    assert forall|i: int| 0 <= i < out.len() && (#[trigger] out[i]).name == flag.name implies i
        == out.len() - 1 by {
        if i < kept.len() {
            assert(kept[i].name == flag.name);
            assert(has_name(kept, flag.name));
        }
    }
    if names_distinct(flags) {
        assert forall|i: int, j: int| 0 <= i < j < out.len() implies out[i].name
            != out[j].name by {
            if j < kept.len() {
                assert(kept[i].name != kept[j].name);
            } else {
                assert(kept[i].name == out[i].name);
                if out[i].name == flag.name {
                    assert(has_name(kept, flag.name));
                }
            }
        }
    }
}

/// Putting flags of distinct names into an empty sequence, one after the
/// other, gives those flags in that order.
pub proof fn lemma_with_flags_of_distinct(added: Seq<FlagModel>)
    requires
        names_distinct(added),
    ensures
        with_flags(Seq::empty(), added) == added,
    decreases added.len(),
{
    if added.len() > 0 {
        let rest = added.drop_last();
        assert(names_distinct(rest)) by {
            assert forall|i: int, j: int| 0 <= i < j < rest.len() implies rest[i].name
                != rest[j].name by {
                assert(added[i].name != added[j].name);
            }
        }
        lemma_with_flags_of_distinct(rest);
        assert(!has_name(rest, added.last().name)) by {
            if has_name(rest, added.last().name) {
                let k = choose|k: int| 0 <= k < rest.len() && #[trigger] rest[k].name == added.last().name;
                assert(added[k].name != added[added.len() - 1].name);
            }
        }
        lemma_without_name(rest, added.last().name);
        assert(rest.push(added.last()) =~= added);
    } else {
        assert(with_flags(Seq::empty(), added) =~= added);
    }
}

/// A rule whose field is missing from the context, or is `null` there, is
/// decided by its operator alone: "is" and "is one of" fail, "is not" and
/// "is not one of" hold, and "contains" holds only for the empty text.
pub proof fn lemma_absent_value(rule: RuleModel, context: Map<Seq<char>, JsonModel>)
    requires
        !context.dom().contains(rule.parameter) || context[rule.parameter] is Null,
    ensures
        rule_holds(rule, context) == match rule.operator {
            OperatorModel::Is(_) => false,
            OperatorModel::IsNot(_) => true,
            OperatorModel::Contains(x) => x.len() == 0,
            OperatorModel::IsOneOf(_) => false,
            OperatorModel::IsNotOneOf(_) => true,
        },
{
    if let OperatorModel::Contains(x) = rule.operator {
        let nothing = Seq::<char>::empty();
        if x.len() == 0 {
            assert(nothing.subrange(0int, 0int + x.len()) =~= x);
        }
    }
}

/// A rule whose field holds a list holds exactly when its operator accepts
/// every element of the list: one element that fails, fails the rule.
pub proof fn lemma_list_value(
    rule: RuleModel,
    context: Map<Seq<char>, JsonModel>,
    items: Seq<JsonModel>,
)
    requires
        context.dom().contains(rule.parameter),
        context[rule.parameter] == JsonModel::List(items),
    ensures
        rule_holds(rule, context) <==> (forall|i: int|
            0 <= i < items.len() ==> value_accepted(rule.operator, #[trigger] items[i])),
{
    let list = JsonModel::List(items);
    assert(rule_holds(rule, context) == value_accepted(rule.operator, list));
    assert(list->List_0 == items);
    assert(value_accepted(rule.operator, list) == (forall|i: int|
        0 <= i < items.len() ==> value_accepted(rule.operator, #[trigger] items[i])));
}

/// A disabled flag is off in every context, whatever its rules are.
pub proof fn lemma_disabled_flag_is_off(flag: FlagModel, context: Map<Seq<char>, JsonModel>)
    requires
        !flag.enabled,
    ensures
        !flag_holds(flag, context),
{
}

/// Putting the same flag in twice is the same as putting it in once.
pub proof fn lemma_with_flag_twice(flags: Seq<FlagModel>, flag: FlagModel)
    ensures
        with_flag(with_flag(flags, flag), flag) == with_flag(flags, flag),
{
    reveal(Seq::filter);
    let kept = without_name(flags, flag.name);
    let once = with_flag(flags, flag);
    lemma_without_name(flags, flag.name);
    lemma_without_name(kept, flag.name);
    assert(once.drop_last() =~= kept);
    assert(once.last() == flag);
    assert(without_name(once, flag.name) == without_name(kept, flag.name));
}

} // verus!
