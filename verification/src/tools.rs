//! The tools that a model can call.

use crate::json::{empty_object, list1, object1, object2, object3, text, Json, JsonV};
use vstd::prelude::*;

verus! {

/// A tool: its name, what it does, and the JSON Schema of its arguments.
#[derive(Debug)]
pub struct Tool {
    pub name: String,
    pub description: String,
    pub parameters: Json,
}

#[verifier::ext_equal]
pub struct ToolV {
    pub name: Seq<char>,
    pub description: Seq<char>,
    pub parameters: JsonV,
}

impl View for Tool {
    type V = ToolV;

    open spec fn view(&self) -> ToolV {
        ToolV { name: self.name@, description: self.description@, parameters: self.parameters@ }
    }
}

impl Tool {
    pub fn new(name: &str, description: &str, parameters: Json) -> (r: Tool)
        ensures
            r@ == (ToolV { name: name@, description: description@, parameters: parameters@ }),
    {
        Tool { name: name.to_owned(), description: description.to_owned(), parameters }
    }
}

/// A call of a tool that a model asked for.
#[derive(Debug)]
pub struct ToolCall {
    pub id: String,
    pub name: String,
    pub arguments: Json,
}

#[verifier::ext_equal]
pub struct ToolCallV {
    pub id: Seq<char>,
    pub name: Seq<char>,
    pub arguments: JsonV,
}

impl View for ToolCall {
    type V = ToolCallV;

    open spec fn view(&self) -> ToolCallV {
        ToolCallV { id: self.id@, name: self.name@, arguments: self.arguments@ }
    }
}

pub open spec fn calls_view(v: Seq<ToolCall>) -> Seq<ToolCallV> {
    v.map_values(|c: ToolCall| c@)
}

pub open spec fn tools_view(v: Seq<Tool>) -> Seq<ToolV> {
    v.map_values(|t: Tool| t@)
}

/// What a completion brings: an answer, or calls of tools.
#[derive(Debug)]
pub enum Completion {
    Text(String),
    ToolCalls(Vec<ToolCall>),
}

pub enum CompletionV {
    Text(Seq<char>),
    ToolCalls(Seq<ToolCallV>),
}

impl View for Completion {
    type V = CompletionV;

    open spec fn view(&self) -> CompletionV {
        match self {
            Completion::Text(t) => CompletionV::Text(t@),
            Completion::ToolCalls(c) => CompletionV::ToolCalls(calls_view(c@)),
        }
    }
}

pub open spec fn opt_completion(o: Option<Completion>) -> Option<CompletionV> {
    match o {
        Some(c) => Some(c@),
        None => None,
    }
}

/// The tool that returns the summary of the portfolio. It takes no arguments.
pub fn brief_tool() -> (r: Tool)
    ensures
        r@.name == "brief"@,
        r@.description
            == "Return the 7-day portfolio summary: per-product spend / leads / qualified / L->Q / goal / gap, plus portfolio feasibility math (current Rs/qualified, best-observed Rs/qualified, required spend to hit goal). Use this when the user asks about overall performance, asks 'what is my best/worst product', or wants a feasibility check."@,
        r@.parameters == JsonV::Object(
            seq![
                ("type"@, JsonV::Text("object"@)),
                ("properties"@, JsonV::Object(Seq::empty())),
                ("additionalProperties"@, JsonV::Bool(false)),
            ],
        ),
{
    Tool::new(
        "brief",
        "Return the 7-day portfolio summary: per-product spend / leads / qualified / L->Q / goal / gap, plus portfolio feasibility math (current Rs/qualified, best-observed Rs/qualified, required spend to hit goal). Use this when the user asks about overall performance, asks 'what is my best/worst product', or wants a feasibility check.",
        object3(
            "type",
            text("object"),
            "properties",
            empty_object(),
            "additionalProperties",
            Json::Bool(false),
        ),
    )
}

/// The tool that returns the table of one product's ad sets. It takes the product's name.
pub fn funnel_tool() -> (r: Tool)
    ensures
        r@.name == "funnel"@,
        r@.description
            == "Return the per-adset 7-day table for ONE product: spend, Meta leads (m), cost per lead, CRM leads (l), qualified (q), visits (v), Rs per qualified, L->Q %, kill-table eligibility (kill=true means spend cleared the kill threshold; never recommend killing rows marked immature or learning), and learning status. Use this when the user asks why a product is not converting, which adsets to scale or kill, or about lead quality within a product."@,
        r@.parameters == JsonV::Object(
            seq![
                ("type"@, JsonV::Text("object"@)),
                (
                    "properties"@,
                    JsonV::Object(
                        seq![
                            (
                                "product"@,
                                JsonV::Object(
                                    seq![
                                        ("type"@, JsonV::Text("string"@)),
                                        (
                                            "description"@,
                                            JsonV::Text(
                                                "Product name exactly as it appears in config.json."@,
                                            ),
                                        ),
                                    ],
                                ),
                            ),
                        ],
                    ),
                ),
                ("required"@, JsonV::List(seq![JsonV::Text("product"@)])),
            ],
        ),
{
    Tool::new(
        "funnel",
        "Return the per-adset 7-day table for ONE product: spend, Meta leads (m), cost per lead, CRM leads (l), qualified (q), visits (v), Rs per qualified, L->Q %, kill-table eligibility (kill=true means spend cleared the kill threshold; never recommend killing rows marked immature or learning), and learning status. Use this when the user asks why a product is not converting, which adsets to scale or kill, or about lead quality within a product.",
        object3(
            "type",
            text("object"),
            "properties",
            object1(
                "product",
                object2(
                    "type",
                    text("string"),
                    "description",
                    text("Product name exactly as it appears in config.json."),
                ),
            ),
            "required",
            list1(text("product")),
        ),
    )
}

} // verus!
