//! From a raw VM log to the trigger that subscribers get: a decoded event
//! where the contract's ABI knows it, the raw log where it does not.

use vstd::prelude::*;
use vstd::string::*;

use crate::table::{filed, sorted, Table};
use crate::text::{append_nat, decimal, hex_encode, hex_text};

verus! {

/// The surroundings of a log that the triggers carry.
#[derive(Debug, Clone)]
pub struct EventLogContext {
    pub time_stamp: i64,
    pub block_number: i64,
    pub block_hash_hex: String,
    pub transaction_id_hex: String,
    pub contract_address_hex: String,
    pub origin_address_hex: String,
    pub caller_address_hex: String,
    pub creator_address_hex: String,
    pub unique_id: String,
    pub removed: bool,
    pub latest_solidified_block_number: i64,
}

impl Default for EventLogContext {
    fn default() -> (r: Self)
        ensures
            r.time_stamp == 0,
            r.block_number == 0,
            r.block_hash_hex@.len() == 0,
            r.transaction_id_hex@.len() == 0,
            r.contract_address_hex@.len() == 0,
            r.origin_address_hex@.len() == 0,
            r.caller_address_hex@.len() == 0,
            r.creator_address_hex@.len() == 0,
            r.unique_id@.len() == 0,
            !r.removed,
            r.latest_solidified_block_number == 0,
    {
        EventLogContext {
            time_stamp: 0,
            block_number: 0,
            block_hash_hex: String::new(),
            transaction_id_hex: String::new(),
            contract_address_hex: String::new(),
            origin_address_hex: String::new(),
            caller_address_hex: String::new(),
            creator_address_hex: String::new(),
            unique_id: String::new(),
            removed: false,
            latest_solidified_block_number: 0,
        }
    }
}

impl EventLogContext {
    /// Whether two contexts say the same.
    pub open spec fn same(&self, o: &EventLogContext) -> bool {
        &&& self.time_stamp == o.time_stamp
        &&& self.block_number == o.block_number
        &&& self.block_hash_hex@ == o.block_hash_hex@
        &&& self.transaction_id_hex@ == o.transaction_id_hex@
        &&& self.contract_address_hex@ == o.contract_address_hex@
        &&& self.origin_address_hex@ == o.origin_address_hex@
        &&& self.caller_address_hex@ == o.caller_address_hex@
        &&& self.creator_address_hex@ == o.creator_address_hex@
        &&& self.unique_id@ == o.unique_id@
        &&& self.removed == o.removed
        &&& self.latest_solidified_block_number == o.latest_solidified_block_number
    }

    fn copy(&self) -> (r: EventLogContext)
        ensures
            r.same(self),
    {
        EventLogContext {
            time_stamp: self.time_stamp,
            block_number: self.block_number,
            block_hash_hex: self.block_hash_hex.clone(),
            transaction_id_hex: self.transaction_id_hex.clone(),
            contract_address_hex: self.contract_address_hex.clone(),
            origin_address_hex: self.origin_address_hex.clone(),
            caller_address_hex: self.caller_address_hex.clone(),
            creator_address_hex: self.creator_address_hex.clone(),
            unique_id: self.unique_id.clone(),
            removed: self.removed,
            latest_solidified_block_number: self.latest_solidified_block_number,
        }
    }
}

/// One decoded parameter, its value as text.
#[derive(Debug, Clone)]
pub struct DecodedParam {
    pub name: String,
    pub abi_type: String,
    pub indexed: bool,
    pub value: String,
}

/// What the ABI says of a log.
#[derive(Debug, Clone)]
pub enum AbiOutcome {
    /// The contract's ABI is not known.
    NoAbi,
    /// The ABI has no matching event, or the log does not fit it.
    Undecodable,
    /// The event's name and parameters.
    Decoded { name: String, params: Vec<DecodedParam> },
}

/// A decoded event.
pub struct ContractEvent {
    pub context: EventLogContext,
    pub event_name: String,
    /// The first topic in hexadecimal.
    pub event_signature: String,
    /// The parameter types, separated by commas.
    pub event_signature_full: String,
    /// Indexed parameters by name, the names ascending.
    pub topic_map: Table<String>,
    /// The other parameters by name, the names ascending.
    pub data_map: Table<String>,
}

/// A raw log.
pub struct ContractLogEvent {
    pub context: EventLogContext,
    /// The topics in hexadecimal.
    pub topic_list: Vec<String>,
    /// The data in hexadecimal.
    pub data: String,
}

/// What a log becomes.
pub enum DecodedLog {
    Event(ContractEvent),
    Log(ContractLogEvent),
}

/// The key of the parameter at `i`: its name, or its position.
pub open spec fn param_key(p: DecodedParam, i: int) -> Seq<char> {
    if p.name@.len() == 0 {
        "arg"@ + decimal(i as nat)
    } else {
        p.name@
    }
}

/// The values as plain text.
pub open spec fn text_map(s: Seq<(Seq<char>, String)>) -> Seq<(Seq<char>, Seq<char>)> {
    s.map_values(|e: (Seq<char>, String)| (e.0, e.1@))
}

/// The indexed, or the other, parameters among the first `n`, filed by key. A
/// later parameter of the same key overrides.
pub open spec fn params_where(params: Seq<DecodedParam>, n: nat, indexed: bool) -> Seq<
    (Seq<char>, Seq<char>),
>
    decreases n,
{
    if n == 0 {
        Seq::empty()
    } else {
        let before = params_where(params, (n - 1) as nat, indexed);
        let p = params[n - 1];
        if p.indexed == indexed {
            filed(before, param_key(p, n - 1), p.value@)
        } else {
            before
        }
    }
}

/// The types of the first `n` parameters, separated by commas.
pub open spec fn types_text(params: Seq<DecodedParam>, n: nat) -> Seq<char>
    decreases n,
{
    if n == 0 {
        ""@
    } else if n == 1 {
        ""@ + params[0].abi_type@
    } else {
        types_text(params, (n - 1) as nat) + ","@ + params[n - 1].abi_type@
    }
}

proof fn lemma_filed_text(s: Seq<(Seq<char>, String)>, key: Seq<char>, v: String)
    ensures
        text_map(filed(s, key, v)) == filed(text_map(s), key, v@),
    decreases s.len(),
{
    if s.len() > 0 {
        assert(text_map(s).skip(1) =~= text_map(s.skip(1)));
        assert(text_map(s)[0] == (s[0].0, s[0].1@));
        lemma_filed_text(s.skip(1), key, v);
    }
    assert(text_map(filed(s, key, v)) =~= filed(text_map(s), key, v@));
}

/// Splits the parameters into the indexed ones and the others.
pub fn split_params(params: &Vec<DecodedParam>) -> (r: (Table<String>, Table<String>))
    ensures
        r.0.wf() && sorted(r.0@),
        r.1.wf() && sorted(r.1@),
        text_map(r.0@) == params_where(params@, params@.len(), true),
        text_map(r.1@) == params_where(params@, params@.len(), false),
{
    let mut topics: Table<String> = Table::new();
    let mut data: Table<String> = Table::new();
    let mut i: usize = 0;
    assert(text_map(topics@) =~= Seq::<(Seq<char>, Seq<char>)>::empty());
    while i < params.len()
        invariant
            i <= params@.len(),
            topics.wf() && sorted(topics@),
            data.wf() && sorted(data@),
            text_map(topics@) == params_where(params@, i as nat, true),
            text_map(data@) == params_where(params@, i as nat, false),
        decreases params@.len() - i,
    {
        let p = &params[i];
        let key = if p.name.as_str().unicode_len() == 0 {
            let mut k = "arg".to_owned();
            append_nat(&mut k, i as u128);
            k
        } else {
            p.name.clone()
        };
        let value = p.value.clone();
        if p.indexed {
            proof {
                lemma_filed_text(topics@, key@, value);
            }
            topics.file(key.as_str(), value);
        } else {
            proof {
                lemma_filed_text(data@, key@, value);
            }
            data.file(key.as_str(), value);
        }
        i = i + 1;
    }
    (topics, data)
}

fn join_types(params: &Vec<DecodedParam>) -> (r: String)
    ensures
        r@ == types_text(params@, params@.len()),
{
    let mut out = "".to_owned();
    let mut i: usize = 0;
    while i < params.len()
        invariant
            i <= params@.len(),
            out@ == types_text(params@, i as nat),
        decreases params@.len() - i,
    {
        if i > 0 {
            out.append(",");
        }
        out.append(params[i].abi_type.as_str());
        i = i + 1;
    }
    out
}

/// Whether a raw trigger carries a log.
pub open spec fn is_raw_log(
    e: ContractLogEvent,
    ctx: EventLogContext,
    topics: Seq<[u8; 32]>,
    data: Seq<u8>,
) -> bool {
    &&& e.context.same(&ctx)
    &&& e.topic_list@.len() == topics.len()
    &&& forall|i: int|
        0 <= i < topics.len() ==> (#[trigger] e.topic_list@[i])@ == hex_text(topics[i]@)
    &&& e.data@ == hex_text(data)
}

fn make_log_event(ctx: &EventLogContext, topics: &[[u8; 32]], data: &[u8]) -> (r: ContractLogEvent)
    ensures
        is_raw_log(r, *ctx, topics@, data@),
{
    let mut topic_list: Vec<String> = Vec::new();
    let mut i: usize = 0;
    while i < topics.len()
        invariant
            i <= topics@.len(),
            topic_list@.len() == i,
            forall|j: int| 0 <= j < i ==> (#[trigger] topic_list@[j])@ == hex_text(topics@[j]@),
        decreases topics@.len() - i,
    {
        topic_list.push(hex_encode(topics[i].as_slice()));
        i = i + 1;
    }
    ContractLogEvent { context: ctx.copy(), topic_list, data: hex_encode(data) }
}

/// Decodes one log, given what the contract's ABI says of it. Only a log with
/// a first topic that the ABI decodes becomes an event; any other stays raw.
pub fn decode_one_log(
    ctx: &EventLogContext,
    topics: &[[u8; 32]],
    data: &[u8],
    abi: &AbiOutcome,
) -> (r: DecodedLog)
    ensures
        match (*abi, r) {
            (AbiOutcome::Decoded { name, params }, DecodedLog::Event(e)) => {
                &&& topics@.len() > 0
                &&& e.context.same(ctx)
                &&& e.event_name@ == name@
                &&& e.event_signature@ == hex_text(topics@[0]@)
                &&& e.event_signature_full@ == types_text(params@, params@.len())
                &&& sorted(e.topic_map@) && sorted(e.data_map@)
                &&& text_map(e.topic_map@) == params_where(params@, params@.len(), true)
                &&& text_map(e.data_map@) == params_where(params@, params@.len(), false)
            },
            (AbiOutcome::Decoded { name, params }, DecodedLog::Log(e)) => topics@.len() == 0
                && is_raw_log(e, *ctx, topics@, data@),
            (_, DecodedLog::Log(e)) => is_raw_log(e, *ctx, topics@, data@),
            (_, DecodedLog::Event(_)) => false,
        },
{
    if topics.len() == 0 {
        return DecodedLog::Log(make_log_event(ctx, topics, data));
    }
    match abi {
        AbiOutcome::Decoded { name, params } => {
            let (topic_map, data_map) = split_params(params);
            DecodedLog::Event(
                ContractEvent {
                    context: ctx.copy(),
                    event_name: name.clone(),
                    event_signature: hex_encode(topics[0].as_slice()),
                    event_signature_full: join_types(params),
                    topic_map,
                    data_map,
                },
            )
        },
        AbiOutcome::NoAbi => DecodedLog::Log(make_log_event(ctx, topics, data)),
        AbiOutcome::Undecodable => DecodedLog::Log(make_log_event(ctx, topics, data)),
    }
}

/// Parameters are filed under their names, and a nameless one under its
/// position: each is found with its value among those of its kind, unless a
/// later one of that kind has the same key, and the other kind is not there.
pub proof fn parameters_are_filed_by_name(
    params: Seq<DecodedParam>,
    n: nat,
    indexed: bool,
    i: int,
    key: Seq<char>,
)
    requires
        n <= params.len(),
    ensures
        sorted(params_where(params, n, indexed)),
        0 <= i < n && params[i].indexed == indexed && (forall|j: int|
            i < j < n && (#[trigger] params[j]).indexed == indexed ==> param_key(params[j], j)
                != param_key(params[i], i)) ==> crate::table::lookup(
            params_where(params, n, indexed),
            param_key(params[i], i),
        ) == Some(params[i].value@),
        (forall|j: int|
            0 <= j < n && (#[trigger] params[j]).indexed == indexed ==> param_key(params[j], j)
                != key) ==> crate::table::lookup(params_where(params, n, indexed), key) is None,
    decreases n,
{
    if n > 0 {
        parameters_are_filed_by_name(params, (n - 1) as nat, indexed, i, key);
        let before = params_where(params, (n - 1) as nat, indexed);
        let p = params[n - 1];
        let k = param_key(p, n - 1);
        if p.indexed == indexed {
            crate::table::filing_then_looking_up(before, k, p.value@, key);
            if 0 <= i < n - 1 {
                crate::table::filing_then_looking_up(
                    before,
                    k,
                    p.value@,
                    param_key(params[i], i),
                );
            }
        }
    }
}

/// The key of a parameter, and the signature's types, joined by commas in the
/// order of the parameters, indexed or not.
pub proof fn signatures_list_every_type(p: DecodedParam, i: int, params: Seq<DecodedParam>, n: nat)
    requires
        0 <= i,
        0 < n < params.len(),
    ensures
        p.name@.len() > 0 ==> param_key(p, i) == p.name@,
        p.name@.len() == 0 ==> param_key(p, i) == "arg"@ + decimal(i as nat),
        types_text(params, (n + 1) as nat) == types_text(params, n) + ","@ + params[n as int].abi_type@,
        types_text(params, 1) == params[0].abi_type@,
        types_text(params, 0).len() == 0,
{
    reveal_strlit("");
    assert(""@ + params[0].abi_type@ =~= params[0].abi_type@);
}

/// A raw log shows every topic and the data in hexadecimal, in their order.
pub proof fn raw_logs_show_everything(
    e: ContractLogEvent,
    ctx: EventLogContext,
    topics: Seq<[u8; 32]>,
    data: Seq<u8>,
    i: int,
)
    requires
        is_raw_log(e, ctx, topics, data),
    ensures
        e.data@ == hex_text(data),
        e.topic_list@.len() == topics.len(),
        0 <= i < topics.len() ==> e.topic_list@[i]@ == hex_text(topics[i]@),
        e.context.time_stamp == ctx.time_stamp,
        e.context.block_number == ctx.block_number,
        e.context.block_hash_hex@ == ctx.block_hash_hex@,
        e.context.transaction_id_hex@ == ctx.transaction_id_hex@,
        e.context.contract_address_hex@ == ctx.contract_address_hex@,
        e.context.origin_address_hex@ == ctx.origin_address_hex@,
        e.context.caller_address_hex@ == ctx.caller_address_hex@,
        e.context.creator_address_hex@ == ctx.creator_address_hex@,
        e.context.unique_id@ == ctx.unique_id@,
        e.context.removed == ctx.removed,
        e.context.latest_solidified_block_number == ctx.latest_solidified_block_number,
{
}

} // verus!
