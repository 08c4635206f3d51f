//! The tools that the variants of an action type stand for.

use crate::naming::{
    description, field_description, glyphs, humanized, snake_cased, tool_description, tool_name,
};
use crate::text::same_text;
use crate::types::outcome;
use vstd::prelude::*;

verus! {

/// What stands behind the name of an item of an attribute.
#[derive(Debug, PartialEq, Eq)]
pub enum ItemValue {
    /// Nothing.
    Bare,
    /// An equals sign and a string.
    Text(String),
    /// Anything else.
    Other,
}

/// What an [`ItemValue`] holds.
pub enum ItemText {
    Bare,
    Text(Seq<char>),
    Other,
}

impl DeepView for ItemValue {
    type V = ItemText;

    open spec fn deep_view(&self) -> ItemText {
        match self {
            ItemValue::Bare => ItemText::Bare,
            ItemValue::Text(text) => ItemText::Text(text@),
            ItemValue::Other => ItemText::Other,
        }
    }
}

/// An item of an `llm` attribute.
#[derive(Debug, PartialEq, Eq)]
pub struct AttributeItem {
    pub name: String,
    pub value: ItemValue,
}

/// What an [`AttributeItem`] holds.
#[verifier::ext_equal]
pub struct Item {
    pub name: Seq<char>,
    pub value: ItemText,
}

impl DeepView for AttributeItem {
    type V = Item;

    open spec fn deep_view(&self) -> Item {
        Item { name: self.name@, value: self.value.deep_view() }
    }
}

/// The attributes of a variant or a field that matter: the items of its `llm` attributes,
/// and the lines of its doc comment.
#[derive(Debug, PartialEq, Eq)]
pub struct ActionAttributes {
    pub llm: Vec<Vec<AttributeItem>>,
    pub docs: Vec<String>,
}

/// What [`ActionAttributes`] hold.
#[verifier::ext_equal]
pub struct Attributes {
    pub llm: Seq<Seq<Item>>,
    pub docs: Seq<Seq<char>>,
}

impl DeepView for ActionAttributes {
    type V = Attributes;

    open spec fn deep_view(&self) -> Attributes {
        Attributes { llm: self.llm.deep_view(), docs: self.docs.deep_view() }
    }
}

/// A field of a variant.
#[derive(Debug, PartialEq, Eq)]
pub struct ActionField {
    pub name: String,
    pub attributes: ActionAttributes,
}

/// What an [`ActionField`] holds.
#[verifier::ext_equal]
pub struct Field {
    pub name: Seq<char>,
    pub attributes: Attributes,
}

impl DeepView for ActionField {
    type V = Field;

    open spec fn deep_view(&self) -> Field {
        Field { name: self.name@, attributes: self.attributes.deep_view() }
    }
}

/// The fields of a variant.
#[derive(Debug, PartialEq, Eq)]
pub enum ActionFields {
    Unit,
    Named(Vec<ActionField>),
    Unnamed,
}

/// What [`ActionFields`] hold.
pub enum Fields {
    Unit,
    Named(Seq<Field>),
    Unnamed,
}

impl DeepView for ActionFields {
    type V = Fields;

    open spec fn deep_view(&self) -> Fields {
        match self {
            ActionFields::Unit => Fields::Unit,
            ActionFields::Named(fields) => Fields::Named(fields.deep_view()),
            ActionFields::Unnamed => Fields::Unnamed,
        }
    }
}

/// A variant of an action type.
#[derive(Debug, PartialEq, Eq)]
pub struct ActionVariant {
    pub name: String,
    pub attributes: ActionAttributes,
    pub fields: ActionFields,
}

/// What an [`ActionVariant`] holds.
#[verifier::ext_equal]
pub struct Variant {
    pub name: Seq<char>,
    pub attributes: Attributes,
    pub fields: Fields,
}

impl DeepView for ActionVariant {
    type V = Variant;

    open spec fn deep_view(&self) -> Variant {
        Variant {
            name: self.name@,
            attributes: self.attributes.deep_view(),
            fields: self.fields.deep_view(),
        }
    }
}

/// An argument of a tool.
#[derive(Debug, PartialEq, Eq)]
pub struct ArgumentPlan {
    /// The field that it fills.
    pub field: String,
    /// The name that the model knows it by.
    pub rename: String,
    pub description: String,
}

/// What a [`ArgumentPlan`] holds.
#[verifier::ext_equal]
pub struct Argument {
    pub field: Seq<char>,
    pub rename: Seq<char>,
    pub description: Seq<char>,
}

impl DeepView for ArgumentPlan {
    type V = Argument;

    open spec fn deep_view(&self) -> Argument {
        Argument {
            field: self.field@,
            rename: self.rename@,
            description: self.description@,
        }
    }
}

impl Clone for ArgumentPlan {
    fn clone(&self) -> (r: Self)
        ensures
            r.deep_view() == self.deep_view(),
    {
        ArgumentPlan {
            field: self.field.clone(),
            rename: self.rename.clone(),
            description: self.description.clone(),
        }
    }
}

/// The tool of a variant.
#[derive(Debug, PartialEq, Eq)]
pub struct ToolPlan {
    pub variant: String,
    pub tool_name: String,
    pub description: String,
    /// The name of the type that calls the tool.
    pub tool_type: String,
    /// The name of the type of its arguments.
    pub arguments_type: String,
    pub arguments: Vec<ArgumentPlan>,
}

/// What a [`ToolPlan`] holds.
#[verifier::ext_equal]
pub struct Plan {
    pub variant: Seq<char>,
    pub tool_name: Seq<char>,
    pub description: Seq<char>,
    pub tool_type: Seq<char>,
    pub arguments_type: Seq<char>,
    pub arguments: Seq<Argument>,
}

impl DeepView for ToolPlan {
    type V = Plan;

    open spec fn deep_view(&self) -> Plan {
        Plan {
            variant: self.variant@,
            tool_name: self.tool_name@,
            description: self.description@,
            tool_type: self.tool_type@,
            arguments_type: self.arguments_type@,
            arguments: self.arguments.deep_view(),
        }
    }
}

impl Clone for ToolPlan {
    fn clone(&self) -> (r: Self)
        ensures
            r.deep_view() == self.deep_view(),
    {
        let arguments = self.arguments.clone();
        assert(arguments.deep_view() =~= self.arguments.deep_view());
        ToolPlan {
            variant: self.variant.clone(),
            tool_name: self.tool_name.clone(),
            description: self.description.clone(),
            tool_type: self.tool_type.clone(),
            arguments_type: self.arguments_type.clone(),
            arguments,
        }
    }
}

/// Why a type has no tools.
#[derive(Debug, Clone, Copy, PartialEq, Eq, Structural)]
pub enum ActionPlanError {
    NotAnEnum,
    /// The variant with that index has unnamed fields.
    UnnamedFields(usize),
}

impl DeepView for ActionPlanError {
    type V = ActionPlanError;

    open spec fn deep_view(&self) -> ActionPlanError {
        *self
    }
}

impl ActionPlanError {
    /// The message of the error.
    pub fn message(&self) -> (r: &'static str)
        ensures
            r@ == match *self {
                ActionPlanError::NotAnEnum => "LLMActions can only be derived for enums"@,
                ActionPlanError::UnnamedFields(_) => {
                    "LLMActions currently supports only unit and named-field variants"@
                },
            },
    {
        match self {
            ActionPlanError::NotAnEnum => "LLMActions can only be derived for enums",
            ActionPlanError::UnnamedFields(_) => {
                "LLMActions currently supports only unit and named-field variants"
            },
        }
    }
}

/// How many items of an attribute are read for a key: up to the first that is neither
/// bare nor the key with a string.
pub open spec fn readable(items: Seq<Item>, key: Seq<char>) -> nat
    decreases items.len(),
{
    if items.len() == 0 {
        0
    } else if (items[0].name == key && items[0].value is Text) || (items[0].name != key
        && items[0].value is Bare) {
        1 + readable(items.drop_first(), key)
    } else {
        0
    }
}

/// The string of the last item with a key.
pub open spec fn last_text(items: Seq<Item>, key: Seq<char>) -> Option<Seq<char>>
    decreases items.len(),
{
    if items.len() == 0 {
        None
    } else {
        match items.last().value {
            ItemText::Text(text) => if items.last().name == key {
                Some(text)
            } else {
                last_text(items.drop_last(), key)
            },
            _ => last_text(items.drop_last(), key),
        }
    }
}

/// The string that one attribute gives a key.
pub open spec fn text_in(items: Seq<Item>, key: Seq<char>) -> Option<Seq<char>> {
    last_text(items.take(readable(items, key) as int), key)
}

/// The string that the first attribute that gives one gives a key.
pub open spec fn named_text(attributes: Seq<Seq<Item>>, key: Seq<char>) -> Option<Seq<char>>
    decreases attributes.len(),
{
    if attributes.len() == 0 {
        None
    } else {
        match text_in(attributes[0], key) {
            Some(text) => Some(text),
            None => named_text(attributes.drop_first(), key),
        }
    }
}

proof fn lemma_readable(items: Seq<Item>, key: Seq<char>)
    ensures
        readable(items, key) <= items.len(),
    decreases items.len(),
{
    if items.len() > 0 {
        lemma_readable(items.drop_first(), key);
    }
}

fn item_text(items: &Vec<AttributeItem>, key: &str) -> (r: Option<String>)
    ensures
        r.deep_view() == text_in(items.deep_view(), key@),
{
    let ghost all = items.deep_view();
    let mut found: Option<String> = None;
    let mut i: usize = 0;
    proof {
        lemma_readable(all, key@);
        assert(all.skip(0) =~= all);
        assert(all.take(0) =~= seq![]);
    }
    while i < items.len()
        invariant
            i <= items.len(),
            all == items.deep_view(),
            readable(all, key@) == i + readable(all.skip(i as int), key@),
            found.deep_view() == last_text(all.take(i as int), key@),
        decreases items.len() - i,
    {
        let item = &items[i];
        assert(all.skip(i as int)[0] == item.deep_view());
        assert(all.skip(i as int).drop_first() =~= all.skip(i + 1));
        assert(all.take(i + 1).drop_last() =~= all.take(i as int));
        assert(all.take(i + 1).last() == item.deep_view());
        if same_text(item.name.as_str(), key) {
            match &item.value {
                ItemValue::Text(text) => {
                    found = Some(text.clone());
                },
                _ => {
                    return found;
                },
            }
        } else {
            match &item.value {
                ItemValue::Bare => {},
                _ => {
                    return found;
                },
            }
        }
        i = i + 1;
    }
    found
}

/// The string that the `llm` attributes give a key: that of the first attribute that gives
/// one.
pub fn llm_named_string(attributes: &Vec<Vec<AttributeItem>>, key: &str) -> (r: Option<String>)
    ensures
        r.deep_view() == named_text(attributes.deep_view(), key@),
{
    let ghost all = attributes.deep_view();
    let mut i: usize = 0;
    assert(all.skip(0) =~= all);
    while i < attributes.len()
        invariant
            i <= attributes.len(),
            all == attributes.deep_view(),
            named_text(all, key@) == named_text(all.skip(i as int), key@),
        decreases attributes.len() - i,
    {
        assert(all.skip(i as int)[0] == attributes@[i as int].deep_view());
        assert(all.skip(i as int).drop_first() =~= all.skip(i + 1));
        if let Some(text) = item_text(&attributes[i], key) {
            return Some(text);
        }
        i = i + 1;
    }
    None
}

/// The argument of a field.
pub open spec fn argument(field: Field) -> Argument {
    Argument {
        field: field.name,
        rename: match named_text(field.attributes.llm, "rename"@) {
            Some(name) => name,
            None => field.name,
        },
        description: match description(
            named_text(field.attributes.llm, "description"@),
            field.attributes.docs,
        ) {
            Some(text) => text,
            None => humanized(glyphs(field.name)),
        },
    }
}

/// The arguments of fields.
pub open spec fn arguments(fields: Fields) -> Seq<Argument> {
    match fields {
        Fields::Named(fields) => Seq::new(fields.len(), |i: int| argument(fields[i])),
        _ => seq![],
    }
}

/// The tool of a variant of a type.
pub open spec fn plan(enum_name: Seq<char>, variant: Variant) -> Plan {
    Plan {
        variant: variant.name,
        tool_name: match named_text(variant.attributes.llm, "name"@) {
            Some(name) => name,
            None => snake_cased(glyphs(variant.name)),
        },
        description: match description(
            named_text(variant.attributes.llm, "description"@),
            variant.attributes.docs,
        ) {
            Some(text) => text,
            None => humanized(glyphs(variant.name)) + " tool"@,
        },
        tool_type: "__llm_actions_"@ + enum_name + "_"@ + variant.name,
        arguments_type: "__llm_actions_"@ + enum_name + "_"@ + variant.name + "_args"@,
        arguments: arguments(variant.fields),
    }
}

/// The tools of the variants of a type, unless one of them has unnamed fields.
pub open spec fn plans(enum_name: Seq<char>, variants: Seq<Variant>) -> Result<
    Seq<Plan>,
    ActionPlanError,
>
    decreases variants.len(),
{
    if variants.len() == 0 {
        Ok(seq![])
    } else {
        match plans(enum_name, variants.drop_last()) {
            Ok(before) => if variants.last().fields is Unnamed {
                Err(ActionPlanError::UnnamedFields((variants.len() - 1) as usize))
            } else {
                Ok(before.push(plan(enum_name, variants.last())))
            },
            Err(error) => Err(error),
        }
    }
}

/// The tools of a type: only an enum has any.
pub open spec fn action_plans(
    is_enum: bool,
    enum_name: Seq<char>,
    variants: Seq<Variant>,
) -> Result<Seq<Plan>, ActionPlanError> {
    if is_enum {
        plans(enum_name, variants)
    } else {
        Err(ActionPlanError::NotAnEnum)
    }
}

proof fn lemma_first_refusal_stays(enum_name: Seq<char>, variants: Seq<Variant>, n: int)
    requires
        0 <= n <= variants.len(),
        plans(enum_name, variants.take(n)) is Err,
    ensures
        plans(enum_name, variants) == plans(enum_name, variants.take(n)),
    decreases variants.len() - n,
{
    if n < variants.len() {
        assert(variants.take(n + 1).drop_last() =~= variants.take(n));
        lemma_first_refusal_stays(enum_name, variants, n + 1);
    } else {
        assert(variants.take(n) =~= variants);
    }
}

fn plan_arguments(fields: &ActionFields) -> (r: Vec<ArgumentPlan>)
    ensures
        r.deep_view() == arguments(fields.deep_view()),
{
    let mut planned: Vec<ArgumentPlan> = Vec::new();
    assert(planned.deep_view() =~= seq![]);
    if let ActionFields::Named(fields) = fields {
        let ghost all = fields.deep_view();
        let ghost wanted = Seq::new(all.len(), |i: int| argument(all[i]));
        assert(planned.deep_view() =~= wanted.take(0));
        let mut i: usize = 0;
        while i < fields.len()
            invariant
                i <= fields.len(),
                all == fields.deep_view(),
                wanted == Seq::new(all.len(), |i: int| argument(all[i])),
                planned.deep_view() == wanted.take(i as int),
            decreases fields.len() - i,
        {
            let field = &fields[i];
            assert(all[i as int] == field.deep_view());
            let rename = match llm_named_string(&field.attributes.llm, "rename") {
                Some(name) => name,
                None => field.name.clone(),
            };
            let given = llm_named_string(&field.attributes.llm, "description");
            let next = ArgumentPlan {
                field: field.name.clone(),
                rename,
                description: field_description(
                    given,
                    field.attributes.docs.as_slice(),
                    field.name.as_str(),
                ),
            };
            let ghost before = planned.deep_view();
            planned.push(next);
            assert(planned.deep_view() =~= before.push(next.deep_view()));
            assert(planned.deep_view() =~= wanted.take(i + 1));
            i = i + 1;
        }
        assert(wanted.take(wanted.len() as int) =~= wanted);
    }
    planned
}

fn plan_variant(enum_name: &str, variant: &ActionVariant) -> (r: ToolPlan)
    ensures
        r.deep_view() == plan(enum_name@, variant.deep_view()),
{
    let mut tool_type = "__llm_actions_".to_string();
    tool_type.append(enum_name);
    tool_type.append("_");
    tool_type.append(variant.name.as_str());
    let mut arguments_type = tool_type.clone();
    arguments_type.append("_args");
    let name = llm_named_string(&variant.attributes.llm, "name");
    let given = llm_named_string(&variant.attributes.llm, "description");
    ToolPlan {
        variant: variant.name.clone(),
        tool_name: tool_name(name, variant.name.as_str()),
        description: tool_description(
            given,
            variant.attributes.docs.as_slice(),
            variant.name.as_str(),
        ),
        tool_type,
        arguments_type,
        arguments: plan_arguments(&variant.fields),
    }
}

/// Plans the tools of a type.
pub fn plan_actions(is_enum: bool, enum_name: &str, variants: &Vec<ActionVariant>) -> (r: Result<
    Vec<ToolPlan>,
    ActionPlanError,
>)
    ensures
        outcome(r) == action_plans(is_enum, enum_name@, variants.deep_view()),
{
    if !is_enum {
        return Err(ActionPlanError::NotAnEnum);
    }
    let ghost all = variants.deep_view();
    let mut planned: Vec<ToolPlan> = Vec::new();
    let mut i: usize = 0;
    assert(all.take(0) =~= seq![]);
    assert(planned.deep_view() =~= seq![]);
    while i < variants.len()
        invariant
            is_enum,
            i <= variants.len(),
            all == variants.deep_view(),
            plans(enum_name@, all.take(i as int)) == Ok::<Seq<Plan>, ActionPlanError>(
                planned.deep_view(),
            ),
        decreases variants.len() - i,
    {
        let variant = &variants[i];
        assert(all.take(i + 1).drop_last() =~= all.take(i as int));
        assert(all.take(i + 1).last() == variant.deep_view());
        proof {
            if plans(enum_name@, all.take(i + 1)) is Err {
                lemma_first_refusal_stays(enum_name@, all, i + 1);
            }
        }
        if let ActionFields::Unnamed = &variant.fields {
            return Err(ActionPlanError::UnnamedFields(i));
        }
        let next = plan_variant(enum_name, variant);
        let ghost before = planned.deep_view();
        planned.push(next);
        assert(planned.deep_view() =~= before.push(next.deep_view()));
        i = i + 1;
    }
    assert(all.take(all.len() as int) =~= all);
    Ok(planned)
}

/// Every variant has one tool, in the order of the variants.
pub proof fn law_every_variant_has_a_tool(enum_name: Seq<char>, variants: Seq<Variant>)
    ensures
        plans(enum_name, variants) matches Ok(planned) ==> {
            &&& planned.len() == variants.len()
            &&& forall|i: int|
                0 <= i < planned.len() ==> #[trigger] planned[i] == plan(enum_name, variants[i])
        },
        plans(enum_name, variants) is Err <==> exists|i: int|
            0 <= i < variants.len() && (#[trigger] variants[i]).fields is Unnamed,
    decreases variants.len(),
{
    if variants.len() > 0 {
        let shorter = variants.drop_last();
        law_every_variant_has_a_tool(enum_name, shorter);
        if exists|i: int| 0 <= i < shorter.len() && (#[trigger] shorter[i]).fields is Unnamed {
            let i = choose|i: int|
                0 <= i < shorter.len() && (#[trigger] shorter[i]).fields is Unnamed;
            assert(variants[i].fields is Unnamed);
        }
        if exists|i: int| 0 <= i < variants.len() && (#[trigger] variants[i]).fields is Unnamed {
            let i = choose|i: int|
                0 <= i < variants.len() && (#[trigger] variants[i]).fields is Unnamed;
            if i < shorter.len() {
                assert(shorter[i].fields is Unnamed);
            }
        }
        if variants.last().fields is Unnamed {
            assert(variants[variants.len() - 1].fields is Unnamed);
        }
        if let Ok(planned) = plans(enum_name, variants) {
            let before = plans(enum_name, shorter)->Ok_0;
            assert forall|i: int| 0 <= i < planned.len() implies #[trigger] planned[i] == plan(
                enum_name,
                variants[i],
            ) by {
                if i < before.len() {
                    assert(planned[i] == before[i]);
                    assert(shorter[i] == variants[i]);
                }
            }
        }
    }
}

} // verus!
