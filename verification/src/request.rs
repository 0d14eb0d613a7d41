use vstd::prelude::*;
use crate::consts::Methods;
use crate::error::AggregationError;
use crate::json::{
    json_object_keys, json_object_text, json_text_list, json_u64, keys_from_json, object_to_json,
    texts_from_json, u64_from_json,
};

verus! {

/// The arguments of a view call.
pub enum ViewArgs {
    /// No arguments.
    Empty,
    /// A page of a listing: where it starts and how many items it may hold.
    Page { from_index: u64, limit: u64 },
    /// The seed whose farms are asked for.
    Seed { seed_id: String },
}

/// The contents of a [`ViewArgs`].
pub enum ViewArgsView {
    Empty,
    Page { from_index: u64, limit: u64 },
    Seed { seed_id: Seq<char> },
}

impl View for ViewArgs {
    type V = ViewArgsView;

    open spec fn view(&self) -> ViewArgsView {
        match self {
            ViewArgs::Empty => ViewArgsView::Empty,
            ViewArgs::Page { from_index, limit } => ViewArgsView::Page {
                from_index: *from_index,
                limit: *limit,
            },
            ViewArgs::Seed { seed_id } => ViewArgsView::Seed { seed_id: seed_id@ },
        }
    }
}

impl ViewArgsView {
    /// The JSON object that carries the arguments to the contract.
    pub open spec fn encoded(self) -> Seq<u8> {
        match self {
            ViewArgsView::Empty => json_object_text(seq![], seq![]),
            ViewArgsView::Page { from_index, limit } => json_object_text(
                seq![("from_index"@, from_index), ("limit"@, limit)],
                seq![],
            ),
            ViewArgsView::Seed { seed_id } => json_object_text(seq![], seq![("seed_id"@, seed_id)]),
        }
    }
}

impl ViewArgs {
    /// The bytes that are sent as the call's arguments. Where there are no
    /// arguments they are the two braces of an empty object.
    pub fn encode(&self) -> (bytes: Vec<u8>)
        ensures
            bytes@ == self@.encoded(),
            self@ is Empty ==> bytes@ == seq![0x7bu8, 0x7du8],
    {
        let mut numbers: Vec<(String, u64)> = Vec::new();
        let mut texts: Vec<(String, String)> = Vec::new();
        match self {
            ViewArgs::Empty => {},
            ViewArgs::Page { from_index, limit } => {
                numbers.push(("from_index".to_owned(), *from_index));
                numbers.push(("limit".to_owned(), *limit));
            },
            ViewArgs::Seed { seed_id } => {
                texts.push(("seed_id".to_owned(), seed_id.clone()));
            },
        }
        assert(numbers.deep_view() =~= match self@ {
            ViewArgsView::Page { from_index, limit } => seq![
                ("from_index"@, from_index),
                ("limit"@, limit),
            ],
            _ => seq![],
        });
        assert(texts.deep_view() =~= match self@ {
            ViewArgsView::Seed { seed_id } => seq![("seed_id"@, seed_id)],
            _ => seq![],
        });
        object_to_json(&numbers, &texts)
    }
}

/// Decodes the answer of the pool count call.
pub fn decode_pool_count(answer: &[u8]) -> (count: Result<u64, AggregationError>)
    ensures
        count == match json_u64(answer@) {
            Some(n) => Ok::<u64, AggregationError>(n),
            None => Err(AggregationError::Decode),
        },
{
    match u64_from_json(answer) {
        Ok(n) => Ok(n),
        Err(_) => Err(AggregationError::Decode),
    }
}

/// Decodes the answer of the whitelist call: the token ids in their order.
pub fn decode_token_ids(answer: &[u8]) -> (ids: Result<Vec<String>, AggregationError>)
    ensures
        match json_text_list(answer@) {
            Some(list) => ids is Ok && ids->Ok_0.deep_view() == list,
            None => ids == Err::<Vec<String>, AggregationError>(AggregationError::Decode),
        },
{
    match texts_from_json(answer) {
        Ok(list) => Ok(list),
        Err(_) => Err(AggregationError::Decode),
    }
}

/// Decodes the answer of the seed listing call: the seed ids, each once.
pub fn decode_seed_ids(answer: &[u8]) -> (ids: Result<Vec<String>, AggregationError>)
    ensures
        match json_object_keys(answer@) {
            Some(keys) => ids is Ok && ids->Ok_0.deep_view() == keys && keys.no_duplicates(),
            None => ids == Err::<Vec<String>, AggregationError>(AggregationError::Decode),
        },
{
    match keys_from_json(answer) {
        Ok(keys) => Ok(keys),
        Err(_) => Err(AggregationError::Decode),
    }
}

/// A read-only call of a contract method: what the caller has to send, and
/// by the method, what kind of answer to expect.
pub struct ViewRequest {
    /// The account of the contract that is asked.
    pub contract_id: String,
    /// The method that is called.
    pub method: Methods,
    /// The arguments, as the bytes of a JSON object.
    pub args: Vec<u8>,
}

/// The contents of a [`ViewRequest`].
pub struct ViewRequestView {
    pub contract_id: Seq<char>,
    pub method: Methods,
    pub args: Seq<u8>,
}

impl View for ViewRequest {
    type V = ViewRequestView;

    open spec fn view(&self) -> ViewRequestView {
        ViewRequestView { contract_id: self.contract_id@, method: self.method, args: self.args@ }
    }
}

/// The call of `method` on the contract `contract_id` with `args`.
pub open spec fn view_call(
    contract_id: Seq<char>,
    method: Methods,
    args: ViewArgsView,
) -> ViewRequestView {
    ViewRequestView { contract_id, method, args: args.encoded() }
}

impl ViewRequest {
    /// The call of `method` on the contract `contract_id` with `args`.
    pub fn new(contract_id: &str, method: Methods, args: &ViewArgs) -> (request: Self)
        ensures
            request@ == view_call(contract_id@, method, args@),
    {
        ViewRequest { contract_id: contract_id.to_owned(), method, args: args.encode() }
    }

    /// The name under which the contract knows the method.
    pub fn method_name(&self) -> (name: String)
        ensures
            name@ == self.method.method_name(),
    {
        self.method.value()
    }
}

} // verus!
