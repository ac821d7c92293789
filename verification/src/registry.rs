//! What is known of the models that providers offer.

use vstd::prelude::*;

use crate::json::{
    double_or_null, lemma_strings_come_back, opt_double, opt_str, opt_uint, or_null, str_values, string,
    string_array, string_or_null, uint_or_null, Double, Json, JsonMap, JsonV,
};
use crate::llm::form::{
    bool_in, can_stand, opt_double_in, opt_text_in, opt_uint_in, read_bool, read_opt_double, read_opt_text,
    read_opt_uint, read_text, read_texts, texts_at,
};
use crate::llm::words::lemma_envelope_words;
use crate::text::{copy_list, copy_opt, opt_view, same, texts, views};

verus! {

/// The facts of one model.
#[derive(Clone, PartialEq, Debug)]
pub struct ModelFacts {
    pub id: String,
    pub provider: String,
    pub context: Option<u64>,
    pub max_output: Option<u64>,
    pub cost_input: Option<Double>,
    pub cost_output: Option<Double>,
    pub modalities: Vec<String>,
    pub tool_call: bool,
    pub status: Option<String>,
}

#[verifier::ext_equal]
pub struct FactsV {
    pub id: Seq<char>,
    pub provider: Seq<char>,
    pub context: Option<u64>,
    pub max_output: Option<u64>,
    pub cost_input: Option<Double>,
    pub cost_output: Option<Double>,
    pub modalities: Seq<Seq<char>>,
    pub tool_call: bool,
    pub status: Option<Seq<char>>,
}

impl View for ModelFacts {
    type V = FactsV;

    open spec fn view(&self) -> FactsV {
        FactsV {
            id: self.id@,
            provider: self.provider@,
            context: self.context,
            max_output: self.max_output,
            cost_input: self.cost_input,
            cost_output: self.cost_output,
            modalities: views(self.modalities@),
            tool_call: self.tool_call,
            status: opt_view(self.status),
        }
    }
}

impl ModelFacts {
    /// A copy of the facts.
    pub fn dup(&self) -> (r: ModelFacts)
        ensures
            r@ == self@,
    {
        ModelFacts {
            id: self.id.clone(),
            provider: self.provider.clone(),
            context: self.context,
            max_output: self.max_output,
            cost_input: self.cost_input,
            cost_output: self.cost_output,
            modalities: copy_list(&self.modalities),
            tool_call: self.tool_call,
            status: copy_opt(&self.status),
        }
    }
}

/// The value of a model's facts.
pub open spec fn facts_value(f: FactsV) -> JsonV {
    JsonV::Object(
        Map::<Seq<char>, JsonV>::empty().insert("id"@, JsonV::Str(f.id)).insert(
            "provider"@,
            JsonV::Str(f.provider),
        ).insert("context"@, or_null(opt_uint(f.context))).insert(
            "max_output"@,
            or_null(opt_uint(f.max_output)),
        ).insert("cost_input"@, or_null(opt_double(f.cost_input))).insert(
            "cost_output"@,
            or_null(opt_double(f.cost_output)),
        ).insert("modalities"@, JsonV::Array(str_values(f.modalities))).insert(
            "tool_call"@,
            JsonV::Bool(f.tool_call),
        ).insert("status"@, or_null(opt_str(f.status))),
    )
}

impl ModelFacts {
    /// The facts as a JSON value.
    pub fn to_json(&self) -> (r: Json)
        ensures
            r@ == facts_value(self@),
    {
        assert(views(self.modalities@) == texts(self.modalities@));
        Json::Object(
            JsonMap::new().set("id", string(self.id.as_str())).set(
                "provider",
                string(self.provider.as_str()),
            ).set("context", uint_or_null(self.context)).set(
                "max_output",
                uint_or_null(self.max_output),
            ).set("cost_input", double_or_null(self.cost_input)).set(
                "cost_output",
                double_or_null(self.cost_output),
            ).set("modalities", string_array(&self.modalities)).set(
                "tool_call",
                Json::Bool(self.tool_call),
            ).set("status", string_or_null(&self.status)),
        )
    }
}

/// The facts of a model that a value spells out.
pub open spec fn facts_in(v: JsonV) -> Option<FactsV> {
    match (
        v.text_at("id"@),
        v.text_at("provider"@),
        opt_uint_in(v, "context"@),
        opt_uint_in(v, "max_output"@),
        opt_double_in(v, "cost_input"@),
        opt_double_in(v, "cost_output"@),
        texts_at(v, "modalities"@),
        bool_in(v, "tool_call"@),
        opt_text_in(v, "status"@),
    ) {
        (
            Some(id),
            Some(provider),
            Some(context),
            Some(max_output),
            Some(cost_input),
            Some(cost_output),
            Some(modalities),
            Some(tool_call),
            Some(status),
        ) => Some(
            FactsV {
                id,
                provider,
                context,
                max_output,
                cost_input,
                cost_output,
                modalities,
                tool_call,
                status,
            },
        ),
        _ => None,
    }
}

impl ModelFacts {
    /// Reads the facts from a JSON value.
    pub fn from_json(v: &Json) -> (r: Option<ModelFacts>)
        ensures
            opt_view(r) == facts_in(v@),
    {
        match (
            read_text(v, "id"),
            read_text(v, "provider"),
            read_opt_uint(v, "context"),
            read_opt_uint(v, "max_output"),
            read_opt_double(v, "cost_input"),
            read_opt_double(v, "cost_output"),
            read_texts(v, "modalities"),
            read_bool(v, "tool_call"),
            read_opt_text(v, "status"),
        ) {
            (
                Some(id),
                Some(provider),
                Some(context),
                Some(max_output),
                Some(cost_input),
                Some(cost_output),
                Some(modalities),
                Some(tool_call),
                Some(status),
            ) => {
                assert(views(modalities@) == texts(modalities@));
                Some(
                    ModelFacts {
                        id,
                        provider,
                        context,
                        max_output,
                        cost_input,
                        cost_output,
                        modalities,
                        tool_call,
                        status,
                    },
                )
            },
            _ => None,
        }
    }
}

/// The facts of a model survive being written and read.
pub proof fn law_facts_survive(f: FactsV)
    requires
        can_stand(f.cost_input) && can_stand(f.cost_output),
    ensures
        facts_in(facts_value(f)) == Some(f),
{
    lemma_envelope_words();
    lemma_strings_come_back(f.modalities);
    assert(facts_in(facts_value(f)) =~= Some(f));
}

/// The models that are known.
#[derive(Clone, PartialEq, Debug)]
pub struct Registry {
    models: Vec<ModelFacts>,
}

#[verifier::ext_equal]
pub struct RegistryV {
    pub models: Seq<FactsV>,
}

impl RegistryV {
    /// The first model of that provider and id.
    pub open spec fn find(self, provider: Seq<char>, model: Seq<char>) -> Option<FactsV> {
        first_match(self.models, provider, model)
    }
}

/// The first model of a provider and id in a list.
pub open spec fn first_match(
    models: Seq<FactsV>,
    provider: Seq<char>,
    model: Seq<char>,
) -> Option<FactsV>
    decreases models.len(),
{
    if models.len() == 0 {
        None
    } else if models[0].provider == provider && models[0].id == model {
        Some(models[0])
    } else {
        first_match(models.drop_first(), provider, model)
    }
}

impl View for Registry {
    type V = RegistryV;

    closed spec fn view(&self) -> RegistryV {
        RegistryV { models: views(self.models@) }
    }
}

impl Registry {
    /// A registry of the given models.
    pub fn new(models: Vec<ModelFacts>) -> (r: Registry)
        ensures
            r@ == (RegistryV { models: views(models@) }),
    {
        Registry { models }
    }

    /// All models, in order.
    pub fn all(&self) -> (r: &Vec<ModelFacts>)
        ensures
            views(r@) == self@.models,
    {
        &self.models
    }

    /// How many models are known.
    pub fn len(&self) -> (r: usize)
        ensures
            r == self@.models.len(),
    {
        self.models.len()
    }

    /// What is known of a model.
    pub fn get(&self, provider: &str, model: &str) -> (r: Option<&ModelFacts>)
        ensures
            match r {
                Some(f) => self@.find(provider@, model@) == Some(f@),
                None => self@.find(provider@, model@) is None,
            },
    {
        let ghost all = self@.models;
        assert(all.skip(0) == all);
        let mut i: usize = 0;
        while i < self.models.len()
            invariant
                i <= self.models.len(),
                all == views(self.models@),
                first_match(all, provider@, model@) == first_match(
                    all.skip(i as int),
                    provider@,
                    model@,
                ),
            decreases self.models.len() - i,
        {
            let m = &self.models[i];
            assert(all.skip(i as int)[0] == m@);
            assert(all.skip(i as int).drop_first() == all.skip(i + 1));
            if same(m.provider.as_str(), provider) && same(m.id.as_str(), model) {
                return Some(m);
            }
            i += 1;
        }
        None
    }
}

/// A model whose facts differ between two registries, and which of them do.
#[derive(Clone, PartialEq, Eq, Debug)]
pub struct ModelChange {
    pub id: String,
    pub provider: String,
    pub context_changed: bool,
    pub cost_input_changed: bool,
    pub cost_output_changed: bool,
}

#[verifier::ext_equal]
pub struct ModelChangeV {
    pub id: Seq<char>,
    pub provider: Seq<char>,
    pub context_changed: bool,
    pub cost_input_changed: bool,
    pub cost_output_changed: bool,
}

impl View for ModelChange {
    type V = ModelChangeV;

    open spec fn view(&self) -> ModelChangeV {
        ModelChangeV {
            id: self.id@,
            provider: self.provider@,
            context_changed: self.context_changed,
            cost_input_changed: self.cost_input_changed,
            cost_output_changed: self.cost_output_changed,
        }
    }
}

/// A model by its provider and id.
#[derive(Clone, PartialEq, Eq, Debug)]
pub struct ModelKey {
    pub provider: String,
    pub id: String,
}

#[verifier::ext_equal]
pub struct ModelKeyV {
    pub provider: Seq<char>,
    pub id: Seq<char>,
}

impl View for ModelKey {
    type V = ModelKeyV;

    open spec fn view(&self) -> ModelKeyV {
        ModelKeyV { provider: self.provider@, id: self.id@ }
    }
}

/// How one registry differs from another.
#[derive(Clone, PartialEq, Eq, Debug)]
pub struct RegistryDiff {
    pub added: Vec<ModelKey>,
    pub removed: Vec<ModelKey>,
    pub changed: Vec<ModelChange>,
}

#[verifier::ext_equal]
pub struct RegistryDiffV {
    pub added: Seq<ModelKeyV>,
    pub removed: Seq<ModelKeyV>,
    pub changed: Seq<ModelChangeV>,
}

impl View for RegistryDiff {
    type V = RegistryDiffV;

    open spec fn view(&self) -> RegistryDiffV {
        RegistryDiffV {
            added: views(self.added@),
            removed: views(self.removed@),
            changed: views(self.changed@),
        }
    }
}

impl RegistryDiff {
    /// Whether there is no difference.
    pub fn is_empty(&self) -> (r: bool)
        ensures
            r == (self@.added.len() == 0 && self@.removed.len() == 0 && self@.changed.len() == 0),
    {
        self.added.len() == 0 && self.removed.len() == 0 && self.changed.len() == 0
    }
}

} // verus!
