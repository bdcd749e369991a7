//! The balance assistant's conversation, as a state machine: the library
//! decides whether to look a balance up directly, what to ask the model, which
//! tools to run and what to answer; the caller runs the lookups and the model.
use vstd::prelude::*;
use vstd::utf8::encode_utf8;
use crate::address::{
    extract_icp_account, extract_sui_address, first_icp_account, first_sui_address, opt_view,
};
use crate::text::{contains_text, has_substring, is_ascii_hexdigit, is_hex_digit, lowercase, to_lowercase, words, chars_of};

verus! {

/// A named argument of a tool call.
pub struct ToolCallArgument {
    pub name: String,
    pub value: String,
}

/// The function a tool call asks for, with its arguments.
pub struct FunctionCall {
    pub name: String,
    pub arguments: Vec<ToolCallArgument>,
}

/// A tool call of the model.
pub struct ToolCall {
    pub id: String,
    pub function: FunctionCall,
}

/// A message of the model: its text, if any, and its tool calls.
pub struct AssistantMessage {
    pub content: Option<String>,
    pub tool_calls: Vec<ToolCall>,
}

/// A message of a conversation.
pub enum ChatMessage {
    User { content: String },
    System { content: String },
    Assistant(AssistantMessage),
    Tool { content: String, tool_call_id: String },
}

/// A string parameter of a tool.
pub struct ParameterSpec {
    pub name: String,
    pub description: String,
    pub required: bool,
}

/// A tool offered to the model.
pub struct ToolSpec {
    pub name: String,
    pub description: String,
    pub parameters: Vec<ParameterSpec>,
}

/// A tool call, as values.
pub struct ToolCallView {
    pub id: Seq<char>,
    pub name: Seq<char>,
    pub arguments: Seq<(Seq<char>, Seq<char>)>,
}

/// A message, as values.
pub enum MessageView {
    User(Seq<char>),
    System(Seq<char>),
    Assistant(Option<Seq<char>>, Seq<ToolCallView>),
    Tool(Seq<char>, Seq<char>),
}

/// A tool, as values: name, description, and (name, description, required)
/// of each parameter.
pub struct ToolView {
    pub name: Seq<char>,
    pub description: Seq<char>,
    pub parameters: Seq<(Seq<char>, Seq<char>, bool)>,
}

pub open spec fn arguments_view(a: Seq<ToolCallArgument>) -> Seq<(Seq<char>, Seq<char>)> {
    a.map_values(|x: ToolCallArgument| (x.name@, x.value@))
}

impl View for ToolCall {
    type V = ToolCallView;

    open spec fn view(&self) -> ToolCallView {
        ToolCallView {
            id: self.id@,
            name: self.function.name@,
            arguments: arguments_view(self.function.arguments@),
        }
    }
}

pub open spec fn calls_view(c: Seq<ToolCall>) -> Seq<ToolCallView> {
    c.map_values(|x: ToolCall| x@)
}

impl View for ChatMessage {
    type V = MessageView;

    open spec fn view(&self) -> MessageView {
        match self {
            ChatMessage::User { content } => MessageView::User(content@),
            ChatMessage::System { content } => MessageView::System(content@),
            ChatMessage::Assistant(m) => MessageView::Assistant(
                opt_view(m.content),
                calls_view(m.tool_calls@),
            ),
            ChatMessage::Tool { content, tool_call_id } => MessageView::Tool(
                content@,
                tool_call_id@,
            ),
        }
    }
}

pub open spec fn messages_view(m: Seq<ChatMessage>) -> Seq<MessageView> {
    m.map_values(|x: ChatMessage| x@)
}

pub open spec fn tool_view(t: ToolSpec) -> ToolView {
    ToolView {
        name: t.name@,
        description: t.description@,
        parameters: t.parameters@.map_values(
            |p: ParameterSpec| (p.name@, p.description@, p.required),
        ),
    }
}

pub open spec fn tools_view(t: Seq<ToolSpec>) -> Seq<ToolView> {
    t.map_values(|x: ToolSpec| tool_view(x))
}

/// The value of the first argument named `name`.
pub open spec fn argument_value(args: Seq<(Seq<char>, Seq<char>)>, name: Seq<char>) -> Option<
    Seq<char>,
>
    decreases args.len(),
{
    if args.len() == 0 {
        None
    } else if args[0].0 == name {
        Some(args[0].1)
    } else {
        argument_value(args.drop_first(), name)
    }
}

impl FunctionCall {
    /// The value of the first argument named `argument` (as
    /// `ic_llm::FunctionCall::get` gives it).
    pub fn get(&self, argument: &str) -> (r: Option<String>)
        ensures
            opt_view(r) == argument_value(arguments_view(self.arguments@), argument@),
    {
        let ghost all = arguments_view(self.arguments@);
        let mut k: usize = 0;
        assert(all.skip(0) =~= all);
        while k < self.arguments.len()
            invariant
                all == arguments_view(self.arguments@),
                k <= self.arguments.len(),
                argument_value(all, argument@) == argument_value(all.skip(k as int), argument@),
            decreases self.arguments.len() - k,
        {
            assert(all.skip(k as int)[0] == all[k as int]);
            let name = String::from_str(argument);
            if self.arguments[k].name == name {
                return Some(self.arguments[k].value.clone());
            }
            assert(all.skip(k as int).drop_first() =~= all.skip(k + 1));
            k = k + 1;
        }
        assert(all.skip(k as int).len() == 0);
        None
    }
}

/// The instructions given to the model first.
pub open spec fn system_prompt_text() -> Seq<char> {
    "\nYou are SyneXAI, a blockchain assistant that helps users check account balances.\n\nWhen a user asks about cryptocurrency balances, you MUST use the appropriate tool:\n- For ICP accounts (64-character hex strings): use lookup_icp_balance\n- For Sui addresses (66-character hex strings starting with 0x): use lookup_sui_balance\n\nIMPORTANT: Always use tools for balance queries. Never try to answer balance questions without calling the appropriate tool first.\n\nExamples:\n- \"What is the balance of 0x2b4d...\" → Use lookup_sui_balance tool\n- \"Check my Sui balance for 0x2b4d...\" → Use lookup_sui_balance tool\n- \"Balance of account abc123...\" → Use lookup_icp_balance tool\n\nIf you see a request about a balance, immediately call the appropriate tool with the provided address.\n"@
}

/// The instructions given to the model first.
pub fn system_prompt() -> (s: String)
    ensures
        s@ == system_prompt_text(),
{
    String::from_str("\nYou are SyneXAI, a blockchain assistant that helps users check account balances.\n\nWhen a user asks about cryptocurrency balances, you MUST use the appropriate tool:\n- For ICP accounts (64-character hex strings): use lookup_icp_balance\n- For Sui addresses (66-character hex strings starting with 0x): use lookup_sui_balance\n\nIMPORTANT: Always use tools for balance queries. Never try to answer balance questions without calling the appropriate tool first.\n\nExamples:\n- \"What is the balance of 0x2b4d...\" → Use lookup_sui_balance tool\n- \"Check my Sui balance for 0x2b4d...\" → Use lookup_sui_balance tool\n- \"Balance of account abc123...\" → Use lookup_icp_balance tool\n\nIf you see a request about a balance, immediately call the appropriate tool with the provided address.\n")
}

/// The extra request to use a tool.
pub open spec fn tool_nudge_text() -> Seq<char> {
    "Please use the appropriate lookup tool to check the balance for the address I provided."@
}

/// The lower-case form of `content` mentions `word`.
pub open spec fn mentions(content: Seq<char>, word: Seq<char>) -> bool {
    has_substring(lowercase(content), word)
}

/// A message that asks about a balance: it mentions `balance`, `amount`,
/// `sui` or `icp`, in any case.
pub open spec fn is_balance_request(content: Seq<char>) -> bool {
    mentions(content, "balance"@) || mentions(content, "amount"@) || mentions(content, "sui"@)
        || mentions(content, "icp"@)
}

/// A message after which the model is asked once more to use a tool: it
/// mentions `balance` or `sui`.
pub open spec fn needs_tool_nudge(content: Seq<char>) -> bool {
    mentions(content, "balance"@) || mentions(content, "sui"@)
}

/// A message that the fallback guidance answers: it mentions `balance`,
/// `sui` or `icp`.
pub open spec fn about_balances(content: Seq<char>) -> bool {
    mentions(content, "balance"@) || mentions(content, "sui"@) || mentions(content, "icp"@)
}

/// Whether the lower-case form of `content` mentions `word`.
fn mentions_check(content: &str, word: &str) -> (b: bool)
    ensures
        b == mentions(content@, word@),
{
    let lower = to_lowercase(content);
    contains_text(lower.as_str(), word)
}

/// Whether `content` asks about a balance.
pub fn balance_request_check(content: &str) -> (b: bool)
    ensures
        b == is_balance_request(content@),
{
    mentions_check(content, "balance") || mentions_check(content, "amount") || mentions_check(
        content,
        "sui",
    ) || mentions_check(content, "icp")
}

/// The text of the last user message.
pub open spec fn last_user_content(ms: Seq<MessageView>) -> Option<Seq<char>>
    decreases ms.len(),
{
    if ms.len() == 0 {
        None
    } else {
        match ms.last() {
            MessageView::User(c) => Some(c),
            _ => last_user_content(ms.drop_last()),
        }
    }
}

/// The text of the last user message of `messages`.
pub fn last_user_message(messages: &Vec<ChatMessage>) -> (r: Option<String>)
    ensures
        opt_view(r) == last_user_content(messages_view(messages@)),
{
    let ghost all = messages_view(messages@);
    let mut k = messages.len();
    assert(all.take(k as int) =~= all);
    while k > 0
        invariant
            k <= messages.len(),
            all == messages_view(messages@),
            last_user_content(all) == last_user_content(all.take(k as int)),
        decreases k,
    {
        let ghost t = all.take(k as int);
        assert(t.last() == messages@[k - 1]@);
        match &messages[k - 1] {
            ChatMessage::User { content } => {
                return Some(content.clone());
            },
            _ => {},
        }
        assert(t.drop_last() =~= all.take(k - 1));
        k = k - 1;
    }
    None
}

/// The answer to a balance request that names a Sui address.
pub open spec fn found_sui_text(address: Seq<char>, answer: Seq<char>) -> Seq<char> {
    "I found the Sui address "@ + address
        + " in your message. Here's the balance information:\n\n"@ + answer
}

/// The answer to a balance request that names an ICP account.
pub open spec fn found_icp_text(account: Seq<char>, answer: Seq<char>) -> Seq<char> {
    "I found the ICP account "@ + account
        + " in your message. Here's the balance information:\n\n"@ + answer
}

/// The answer to a call of an unknown tool.
pub open spec fn unknown_tool_text(name: Seq<char>) -> Seq<char> {
    "Unknown tool: "@ + name
}

/// `content` holds a hexadecimal digit.
pub open spec fn has_hex_digit(content: Seq<char>) -> bool {
    exists|i: int| 0 <= i < content.len() && is_hex_digit(#[trigger] content[i])
}

/// The guidance given when a balance question got no tool call: about a Sui
/// address when the message holds `0x`; asking which kind of address it is
/// when the message is longer than 60 bytes and holds a hexadecimal digit;
/// and otherwise what to provide.
pub open spec fn guidance_text(content: Seq<char>) -> Seq<char> {
    if has_substring(content, "0x"@) {
        "I can see you're asking about a Sui address balance. Let me help you with that. Please provide the complete Sui address (66 characters starting with 0x) and I'll look up the balance for you."@
    } else if encode_utf8(content).len() > 60 && has_hex_digit(content) {
        "I can see you're asking about a crypto balance. Please clarify if this is a Sui address (starts with 0x, 66 chars) or an ICP account (64 hex chars), and I'll look it up for you."@
    } else {
        "I can help you check cryptocurrency balances! Please provide:\n- For Sui: a 66-character address starting with 0x\n- For ICP: a 64-character hexadecimal account identifier"@
    }
}

/// The answer when the model said nothing.
pub open spec fn fallback_text() -> Seq<char> {
    "I'm here to help you check blockchain balances! Please provide a Sui address (66 chars starting with 0x) or ICP account (64 hex chars) and I'll look up the balance."@
}

/// The guidance for a balance question that got no tool call.
pub fn guidance(content: &str) -> (r: String)
    ensures
        r@ == guidance_text(content@),
{
    if contains_text(content, "0x") {
        return String::from_str("I can see you're asking about a Sui address balance. Let me help you with that. Please provide the complete Sui address (66 characters starting with 0x) and I'll look up the balance for you.");
    }
    let n = content.as_bytes().len();
    assert(n == encode_utf8(content@).len());
    if n > 60 {
        let chars = chars_of(content);
        let mut i: usize = 0;
        while i < chars.len()
            invariant
                chars@ == content@,
                !has_substring(content@, "0x"@),
                encode_utf8(content@).len() > 60,
                i <= chars.len(),
                forall|k: int| 0 <= k < i ==> !is_hex_digit(#[trigger] content@[k]),
            decreases chars.len() - i,
        {
            if is_ascii_hexdigit(chars[i]) {
                assert(is_hex_digit(content@[i as int]));
                return String::from_str("I can see you're asking about a crypto balance. Please clarify if this is a Sui address (starts with 0x, 66 chars) or an ICP account (64 hex chars), and I'll look it up for you.");
            }
            i = i + 1;
        }
    }
    String::from_str("I can help you check cryptocurrency balances! Please provide:\n- For Sui: a 66-character address starting with 0x\n- For ICP: a 64-character hexadecimal account identifier")
}

/// The tools offered to the model.
pub open spec fn balance_tools_view() -> Seq<ToolView> {
    seq![
        ToolView {
            name: "lookup_icp_balance"@,
            description: "Use this tool to lookup the balance of an ICP account. Call this tool whenever a user asks about ICP balances or provides a 64-character hex string account."@,
            parameters: seq![("account"@, "The ICP account identifier - exactly 64 hexadecimal characters (no 0x prefix)"@, true)],
        },
        ToolView {
            name: "lookup_sui_balance"@,
            description: "Use this tool to lookup the balance of a Sui address. Call this tool whenever a user asks about Sui balances or provides a 66-character hex string starting with 0x."@,
            parameters: seq![("address"@, "The Sui address - exactly 66 characters starting with 0x followed by 64 hex characters"@, true)],
        },
    ]
}

fn tool_with(name: &str, description: &str, param: &str, param_description: &str) -> (t: ToolSpec)
    ensures
        tool_view(t) == (ToolView {
            name: name@,
            description: description@,
            parameters: seq![(param@, param_description@, true)],
        }),
{
    let mut parameters: Vec<ParameterSpec> = Vec::new();
    parameters.push(
        ParameterSpec {
            name: String::from_str(param),
            description: String::from_str(param_description),
            required: true,
        },
    );
    let t = ToolSpec {
        name: String::from_str(name),
        description: String::from_str(description),
        parameters,
    };
    assert(tool_view(t).parameters =~= seq![(param@, param_description@, true)]);
    t
}

/// The tools offered to the model: a lookup of an ICP account and of a Sui
/// address, each with one required string parameter.
pub fn balance_tools() -> (tools: Vec<ToolSpec>)
    ensures
        tools_view(tools@) == balance_tools_view(),
{
    let mut tools: Vec<ToolSpec> = Vec::new();
    tools.push(tool_with("lookup_icp_balance", "Use this tool to lookup the balance of an ICP account. Call this tool whenever a user asks about ICP balances or provides a 64-character hex string account.", "account", "The ICP account identifier - exactly 64 hexadecimal characters (no 0x prefix)"));
    tools.push(tool_with("lookup_sui_balance", "Use this tool to lookup the balance of a Sui address. Call this tool whenever a user asks about Sui balances or provides a 66-character hex string starting with 0x.", "address", "The Sui address - exactly 66 characters starting with 0x followed by 64 hex characters"));
    assert(tools_view(tools@) =~= balance_tools_view());
    tools
}

/// What the caller is to do next.
pub enum ChatAction {
    /// Look up the balances of a Sui address and report the answer.
    LookupSui(String),
    /// Look up the balance of an ICP account and report the answer.
    LookupIcp(String),
    /// Ask the model, offering the tools (none: offer none), and report its reply.
    AskModel { messages: Vec<ChatMessage>, tools: Vec<ToolSpec> },
    /// Answer the user; the conversation is over.
    Reply(String),
}

/// What the caller reports.
pub enum ChatEvent {
    LookupAnswer(String),
    ModelReply(AssistantMessage),
}

/// Where a conversation stands.
pub enum ChatState {
    /// Waiting for the lookup of a Sui address named in a balance request.
    DirectSui { address: String },
    /// Waiting for the lookup of an ICP account named in a balance request.
    DirectIcp { account: String },
    /// Waiting for the model's first reply to `conversation`.
    FirstReply { conversation: Vec<ChatMessage>, last_user: Option<String> },
    /// Waiting for the lookup that tool call `next` asked for; the answers to
    /// the tool calls start at position `first_answer` of `conversation`.
    ToolResult {
        conversation: Vec<ChatMessage>,
        calls: Vec<ToolCall>,
        next: usize,
        first_answer: usize,
    },
    /// Waiting for the model's reply to the tool answers.
    FinalReply,
    /// The conversation is over.
    Done,
}

pub enum ActionView {
    LookupSui(Seq<char>),
    LookupIcp(Seq<char>),
    AskModel(Seq<MessageView>, Seq<ToolView>),
    Reply(Seq<char>),
}

pub enum EventView {
    LookupAnswer(Seq<char>),
    ModelReply(Option<Seq<char>>, Seq<ToolCallView>),
}

pub enum StateView {
    DirectSui(Seq<char>),
    DirectIcp(Seq<char>),
    FirstReply(Seq<MessageView>, Option<Seq<char>>),
    ToolResult(Seq<MessageView>, Seq<ToolCallView>, int, int),
    FinalReply,
    Done,
}

impl View for ChatAction {
    type V = ActionView;

    open spec fn view(&self) -> ActionView {
        match self {
            ChatAction::LookupSui(a) => ActionView::LookupSui(a@),
            ChatAction::LookupIcp(a) => ActionView::LookupIcp(a@),
            ChatAction::AskModel { messages, tools } => ActionView::AskModel(
                messages_view(messages@),
                tools_view(tools@),
            ),
            ChatAction::Reply(t) => ActionView::Reply(t@),
        }
    }
}

impl View for ChatEvent {
    type V = EventView;

    open spec fn view(&self) -> EventView {
        match self {
            ChatEvent::LookupAnswer(t) => EventView::LookupAnswer(t@),
            ChatEvent::ModelReply(m) => EventView::ModelReply(
                opt_view(m.content),
                calls_view(m.tool_calls@),
            ),
        }
    }
}

impl View for ChatState {
    type V = StateView;

    open spec fn view(&self) -> StateView {
        match self {
            ChatState::DirectSui { address } => StateView::DirectSui(address@),
            ChatState::DirectIcp { account } => StateView::DirectIcp(account@),
            ChatState::FirstReply { conversation, last_user } => StateView::FirstReply(
                messages_view(conversation@),
                opt_view(*last_user),
            ),
            ChatState::ToolResult { conversation, calls, next, first_answer } =>
                StateView::ToolResult(
                messages_view(conversation@),
                calls_view(calls@),
                *next as int,
                *first_answer as int,
            ),
            ChatState::FinalReply => StateView::FinalReply,
            ChatState::Done => StateView::Done,
        }
    }
}

/// The messages first sent to the model: the instructions, the conversation
/// so far, and, when the last user message mentions `balance` or `sui`, a
/// request to use a tool.
pub open spec fn first_request(ms: Seq<MessageView>) -> Seq<MessageView> {
    let nudge = match last_user_content(ms) {
        Some(c) => if needs_tool_nudge(c) {
            seq![MessageView::User(tool_nudge_text())]
        } else {
            Seq::empty()
        },
        None => Seq::empty(),
    };
    seq![MessageView::System(system_prompt_text())] + ms + nudge
}

/// How a conversation starts: when the last user message asks about a
/// balance and names a Sui address (or else an ICP account), that is looked
/// up directly; otherwise the model is asked, with the tools.
pub open spec fn chat_start(ms: Seq<MessageView>) -> (StateView, ActionView) {
    let ask = (
        StateView::FirstReply(first_request(ms), last_user_content(ms)),
        ActionView::AskModel(first_request(ms), balance_tools_view()),
    );
    match last_user_content(ms) {
        Some(c) => if is_balance_request(c) {
            match first_sui_address(words(c)) {
                Some(a) => (StateView::DirectSui(a), ActionView::LookupSui(a)),
                None => match first_icp_account(words(c)) {
                    Some(a) => (StateView::DirectIcp(a), ActionView::LookupIcp(a)),
                    None => ask,
                },
            }
        } else {
            ask
        },
        None => ask,
    }
}

/// A tool that the assistant runs.
pub open spec fn is_known_tool(name: Seq<char>) -> bool {
    name == "lookup_icp_balance"@ || name == "lookup_sui_balance"@
}

/// The argument a known tool needs: `account` for the ICP lookup, `address`
/// for the Sui lookup.
pub open spec fn required_argument(name: Seq<char>) -> Seq<char> {
    if name == "lookup_icp_balance"@ {
        "account"@
    } else {
        "address"@
    }
}

/// The lookup a known tool call asks for.
pub open spec fn tool_lookup(call: ToolCallView) -> ActionView {
    let arg = argument_value(call.arguments, required_argument(call.name))->Some_0;
    if call.name == "lookup_icp_balance"@ {
        ActionView::LookupIcp(arg)
    } else {
        ActionView::LookupSui(arg)
    }
}

/// The first call at or after `from` of a known tool.
pub open spec fn first_known(calls: Seq<ToolCallView>, from: int) -> Option<int>
    decreases calls.len() - from,
{
    if from < 0 || from >= calls.len() {
        None
    } else if is_known_tool(calls[from].name) {
        Some(from)
    } else {
        first_known(calls, from + 1)
    }
}

/// The next known tool call from `from` carries its argument (a call that
/// lacks it traps).
pub open spec fn dispatch_defined(calls: Seq<ToolCallView>, from: int) -> bool {
    match first_known(calls, from) {
        Some(j) => argument_value(calls[j].arguments, required_argument(calls[j].name)) is Some,
        None => true,
    }
}

/// The argument that the next known tool call from `from` lacks, if it lacks
/// it: `account` for the ICP lookup, `address` for the Sui lookup.
pub open spec fn missing_argument(calls: Seq<ToolCallView>, from: int) -> Option<Seq<char>> {
    match first_known(calls, from) {
        Some(j) => if argument_value(calls[j].arguments, required_argument(calls[j].name)) is Some {
            None
        } else {
            Some(required_argument(calls[j].name))
        },
        None => None,
    }
}

/// The argument that a known tool call about to run on event `e` in state `s`
/// lacks, if any.
pub open spec fn missing_for(s: StateView, e: EventView) -> Option<Seq<char>> {
    match (s, e) {
        (StateView::FirstReply(_, _), EventView::ModelReply(_, calls)) => missing_argument(calls, 0),
        (StateView::ToolResult(_, calls, next, _), EventView::LookupAnswer(_)) => if next < calls.len() {
            missing_argument(calls, next + 1)
        } else {
            None
        },
        _ => None,
    }
}

/// Running the tool calls from `from` on: a call of an unknown tool is
/// answered at once; at a known one the lookup is asked for; after the last
/// call the model is asked again, without tools.
pub open spec fn run_tools(conv: Seq<MessageView>, calls: Seq<ToolCallView>, from: int, first_answer: int) -> (StateView, ActionView)
    decreases calls.len() - from,
{
    if from < 0 || from >= calls.len() {
        (StateView::FinalReply, ActionView::AskModel(conv, Seq::empty()))
    } else if is_known_tool(calls[from].name) {
        (StateView::ToolResult(conv, calls, from, first_answer), tool_lookup(calls[from]))
    } else {
        run_tools(
            conv.push(MessageView::Tool(unknown_tool_text(calls[from].name), calls[from].id)),
            calls,
            from + 1,
            first_answer,
        )
    }
}

/// The text of a reply, empty when it has none.
pub open spec fn text_or_empty(t: Option<Seq<char>>) -> Seq<char> {
    match t {
        Some(x) => x,
        None => Seq::empty(),
    }
}

/// The answer when the model called no tool: guidance when the last user
/// message is about balances; otherwise the model's text, or the fallback
/// when that is empty.
pub open spec fn no_tool_answer(last_user: Option<Seq<char>>, content: Option<Seq<char>>) -> Seq<char> {
    let direct = text_or_empty(content);
    match last_user {
        Some(c) => if about_balances(c) {
            guidance_text(c)
        } else if direct.len() == 0 {
            fallback_text()
        } else {
            direct
        },
        None => if direct.len() == 0 {
            fallback_text()
        } else {
            direct
        },
    }
}

/// The event fits the state: a lookup answer where a lookup is awaited, a
/// model reply where one is awaited; and no known tool call that is about to
/// run lacks its argument.
pub open spec fn event_fits(s: StateView, e: EventView) -> bool {
    match (s, e) {
        (StateView::DirectSui(_), EventView::LookupAnswer(_)) => true,
        (StateView::DirectIcp(_), EventView::LookupAnswer(_)) => true,
        (StateView::FirstReply(_, _), EventView::ModelReply(_, calls)) => dispatch_defined(calls, 0),
        (StateView::ToolResult(_, calls, next, _), EventView::LookupAnswer(_)) => dispatch_defined(
            calls,
            next + 1,
        ),
        (StateView::FinalReply, EventView::ModelReply(_, _)) => true,
        _ => false,
    }
}

/// The next state and action after event `e` in state `s`.
pub open spec fn chat_next(s: StateView, e: EventView) -> (StateView, ActionView) {
    match (s, e) {
        (StateView::DirectSui(a), EventView::LookupAnswer(t)) => (
            StateView::Done,
            ActionView::Reply(found_sui_text(a, t)),
        ),
        (StateView::DirectIcp(a), EventView::LookupAnswer(t)) => (
            StateView::Done,
            ActionView::Reply(found_icp_text(a, t)),
        ),
        (StateView::FirstReply(conv, last_user), EventView::ModelReply(content, calls)) => {
            if calls.len() > 0 {
                run_tools(
                    conv.push(MessageView::Assistant(content, calls)),
                    calls,
                    0,
                    conv.len() + 1int,
                )
            } else {
                (StateView::Done, ActionView::Reply(no_tool_answer(last_user, content)))
            }
        },
        (StateView::ToolResult(conv, calls, next, first_answer), EventView::LookupAnswer(t)) =>
            run_tools(
            conv.push(MessageView::Tool(t, calls[next].id)),
            calls,
            next + 1,
            first_answer,
        ),
        (StateView::FinalReply, EventView::ModelReply(content, _)) => (
            StateView::Done,
            ActionView::Reply(text_or_empty(content)),
        ),
        _ => (StateView::Done, ActionView::Reply(Seq::empty())),
    }
}

fn copy_text(t: &Option<String>) -> (r: Option<String>)
    ensures
        opt_view(r) == opt_view(*t),
{
    match t {
        Some(x) => Some(x.clone()),
        None => None,
    }
}

fn copy_call(c: &ToolCall) -> (r: ToolCall)
    ensures
        r@ == c@,
{
    let mut arguments: Vec<ToolCallArgument> = Vec::new();
    let mut k: usize = 0;
    while k < c.function.arguments.len()
        invariant
            k <= c.function.arguments.len(),
            arguments_view(arguments@) == arguments_view(c.function.arguments@).take(k as int),
        decreases c.function.arguments.len() - k,
    {
        let a = &c.function.arguments[k];
        let ghost prev = arguments@;
        arguments.push(ToolCallArgument { name: a.name.clone(), value: a.value.clone() });
        proof {
            let all = arguments_view(c.function.arguments@);
            assert(arguments@ == prev.push(arguments@.last()));
            assert(arguments_view(arguments@) =~= arguments_view(prev).push(all[k as int]));
            assert(all.take(k + 1) =~= all.take(k as int).push(all[k as int]));
        }
        k = k + 1;
    }
    assert(arguments_view(c.function.arguments@).take(k as int) =~= arguments_view(
        c.function.arguments@,
    ));
    ToolCall {
        id: c.id.clone(),
        function: FunctionCall { name: c.function.name.clone(), arguments },
    }
}

fn copy_calls(v: &Vec<ToolCall>) -> (r: Vec<ToolCall>)
    ensures
        calls_view(r@) == calls_view(v@),
{
    let mut r: Vec<ToolCall> = Vec::new();
    let mut k: usize = 0;
    while k < v.len()
        invariant
            k <= v.len(),
            calls_view(r@) == calls_view(v@).take(k as int),
        decreases v.len() - k,
    {
        let ghost prev = r@;
        r.push(copy_call(&v[k]));
        proof {
            let all = calls_view(v@);
            assert(calls_view(r@) =~= calls_view(prev).push(all[k as int]));
            assert(all.take(k + 1) =~= all.take(k as int).push(all[k as int]));
        }
        k = k + 1;
    }
    assert(calls_view(v@).take(k as int) =~= calls_view(v@));
    r
}

fn copy_message(m: &ChatMessage) -> (r: ChatMessage)
    ensures
        r@ == m@,
{
    match m {
        ChatMessage::User { content } => ChatMessage::User { content: content.clone() },
        ChatMessage::System { content } => ChatMessage::System { content: content.clone() },
        ChatMessage::Assistant(a) => ChatMessage::Assistant(
            AssistantMessage { content: copy_text(&a.content), tool_calls: copy_calls(&a.tool_calls) },
        ),
        ChatMessage::Tool { content, tool_call_id } => ChatMessage::Tool {
            content: content.clone(),
            tool_call_id: tool_call_id.clone(),
        },
    }
}

fn copy_messages(v: &Vec<ChatMessage>) -> (r: Vec<ChatMessage>)
    ensures
        messages_view(r@) == messages_view(v@),
{
    let mut r: Vec<ChatMessage> = Vec::new();
    let mut k: usize = 0;
    while k < v.len()
        invariant
            k <= v.len(),
            messages_view(r@) == messages_view(v@).take(k as int),
        decreases v.len() - k,
    {
        let ghost prev = r@;
        r.push(copy_message(&v[k]));
        proof {
            let all = messages_view(v@);
            assert(messages_view(r@) =~= messages_view(prev).push(all[k as int]));
            assert(all.take(k + 1) =~= all.take(k as int).push(all[k as int]));
        }
        k = k + 1;
    }
    assert(messages_view(v@).take(k as int) =~= messages_view(v@));
    r
}

/// Starts a conversation from the user's messages (see `chat_start`).
pub fn chat_begin(messages: Vec<ChatMessage>) -> (r: (ChatState, ChatAction))
    ensures
        (r.0@, r.1@) == chat_start(messages_view(messages@)),
        chat_wf(r.0@),
{
    let ghost ms = messages_view(messages@);
    let last_user = last_user_message(&messages);
    if let Some(c) = &last_user {
        if balance_request_check(c.as_str()) {
            if let Some(a) = extract_sui_address(c.as_str()) {
                let shown = a.clone();
                return (ChatState::DirectSui { address: a }, ChatAction::LookupSui(shown));
            }
            if let Some(a) = extract_icp_account(c.as_str()) {
                let shown = a.clone();
                return (ChatState::DirectIcp { account: a }, ChatAction::LookupIcp(shown));
            }
        }
    }
    let mut all: Vec<ChatMessage> = Vec::new();
    all.push(ChatMessage::System { content: system_prompt() });
    let mut rest = messages;
    all.append(&mut rest);
    if let Some(c) = &last_user {
        if mentions_check(c.as_str(), "balance") || mentions_check(c.as_str(), "sui") {
            all.push(
                ChatMessage::User {
                    content: String::from_str(
                        "Please use the appropriate lookup tool to check the balance for the address I provided.",
                    ),
                },
            );
        }
    }
    assert(messages_view(all@) =~= first_request(ms));
    let conversation = copy_messages(&all);
    let tools = balance_tools();
    (
        ChatState::FirstReply { conversation, last_user },
        ChatAction::AskModel { messages: all, tools },
    )
}

/// Whether `name` is `target`.
fn is_named(name: &String, target: &str) -> (b: bool)
    ensures
        b == (name@ == target@),
{
    let t = String::from_str(target);
    *name == t
}

fn run_tools_from(initial: Vec<ChatMessage>, calls: Vec<ToolCall>, from: usize, first_answer: usize) -> (r: (ChatState, ChatAction))
    requires
        from <= calls.len(),
        dispatch_defined(calls_view(calls@), from as int),
    ensures
        (r.0@, r.1@) == run_tools(
            messages_view(initial@),
            calls_view(calls@),
            from as int,
            first_answer as int,
        ),
{
    let ghost cv = calls_view(calls@);
    let ghost start = messages_view(initial@);
    let mut conv = initial;
    let mut k = from;
    while k < calls.len()
        invariant
            cv == calls_view(calls@),
            start == messages_view(initial@),
            from <= k <= calls.len(),
            dispatch_defined(cv, k as int),
            run_tools(messages_view(conv@), cv, k as int, first_answer as int) == run_tools(
                start,
                cv,
                from as int,
                first_answer as int,
            ),
        decreases calls.len() - k,
    {
        assert(cv[k as int] == calls@[k as int]@);
        let icp = is_named(&calls[k].function.name, "lookup_icp_balance");
        let sui = is_named(&calls[k].function.name, "lookup_sui_balance");
        if icp || sui {
            proof {
                reveal_strlit("lookup_icp_balance");
                reveal_strlit("lookup_sui_balance");
            }
            assert(first_known(cv, k as int) == Some(k as int));
            let arg = if icp {
                calls[k].function.get("account")
            } else {
                calls[k].function.get("address")
            };
            let value = arg.unwrap();
            let action = if icp {
                ChatAction::LookupIcp(value)
            } else {
                ChatAction::LookupSui(value)
            };
            return (ChatState::ToolResult { conversation: conv, calls, next: k, first_answer }, action);
        }
        let mut t = String::from_str("Unknown tool: ");
        t.append(calls[k].function.name.as_str());
        let id = calls[k].id.clone();
        let ghost before = messages_view(conv@);
        conv.push(ChatMessage::Tool { content: t, tool_call_id: id });
        assert(messages_view(conv@) =~= before.push(
            MessageView::Tool(unknown_tool_text(cv[k as int].name), cv[k as int].id),
        ));
        k = k + 1;
    }
    let tools: Vec<ToolSpec> = Vec::new();
    assert(tools_view(tools@) =~= Seq::<ToolView>::empty());
    (ChatState::FinalReply, ChatAction::AskModel { messages: conv, tools })
}

/// The tool calls `calls` are answered, in order, up to (not including)
/// `upto`: the assistant message that made them stands at `first_answer - 1`,
/// and one tool message per call follows it, with the call's id.
pub open spec fn answered_upto(conv: Seq<MessageView>, calls: Seq<ToolCallView>, first_answer: int, upto: int) -> bool {
    &&& 1 <= first_answer
    &&& 0 <= upto <= calls.len()
    &&& conv.len() == first_answer + upto
    &&& conv[first_answer - 1] matches MessageView::Assistant(_, c) && c == calls
    &&& forall|k: int|
        0 <= k < upto ==> (#[trigger] conv[first_answer + k] matches MessageView::Tool(_, id) && id
            == calls[k].id)
}

/// The state is consistent: a tool lookup is awaited only for a known tool
/// call, after the answers to all calls before it.
pub open spec fn chat_wf(s: StateView) -> bool {
    match s {
        StateView::ToolResult(conv, calls, next, first_answer) => {
            &&& answered_upto(conv, calls, first_answer, next)
            &&& next < calls.len()
            &&& is_known_tool(calls[next].name)
        },
        _ => true,
    }
}

/// Running the tool calls keeps them answered in order; when all are run,
/// the model is asked with every call answered once, in order, and no tools.
pub proof fn lemma_run_tools_answers(conv: Seq<MessageView>, calls: Seq<ToolCallView>, from: int, first_answer: int)
    requires
        answered_upto(conv, calls, first_answer, from),
    ensures
        chat_wf(run_tools(conv, calls, from, first_answer).0),
        run_tools(conv, calls, from, first_answer).1 matches ActionView::AskModel(ms, ts) ==> (
        answered_upto(ms, calls, first_answer, calls.len() as int) && ts.len() == 0),
    decreases calls.len() - from,
{
    if from < calls.len() && !is_known_tool(calls[from].name) {
        let next = conv.push(MessageView::Tool(unknown_tool_text(calls[from].name), calls[from].id));
        assert forall|k: int| 0 <= k < from + 1 implies (#[trigger] next[first_answer + k] matches MessageView::Tool(_, id) && id == calls[k].id) by {
            if k < from {
                assert(next[first_answer + k] == conv[first_answer + k]);
            }
        }
        assert(next[first_answer - 1] == conv[first_answer - 1]);
        lemma_run_tools_answers(next, calls, from + 1, first_answer);
    }
}

/// Takes in what the caller reports and gives the next state and action
/// (see `chat_next`).
pub fn chat_step(state: ChatState, event: ChatEvent) -> (r: (ChatState, ChatAction))
    requires
        chat_wf(state@),
        event_fits(state@, event@),
    ensures
        (r.0@, r.1@) == chat_next(state@, event@),
        chat_wf(r.0@),
{
    let ghost s = state@;
    let ghost e = event@;
    match state {
        ChatState::DirectSui { address } => match event {
            ChatEvent::LookupAnswer(answer) => {
                let mut t = String::from_str("I found the Sui address ");
                t.append(address.as_str());
                t.append(" in your message. Here's the balance information:\n\n");
                t.append(answer.as_str());
                assert(t@ =~= found_sui_text(address@, answer@));
                (ChatState::Done, ChatAction::Reply(t))
            },
            _ => (ChatState::Done, ChatAction::Reply(String::new())),
        },
        ChatState::DirectIcp { account } => match event {
            ChatEvent::LookupAnswer(answer) => {
                let mut t = String::from_str("I found the ICP account ");
                t.append(account.as_str());
                t.append(" in your message. Here's the balance information:\n\n");
                t.append(answer.as_str());
                assert(t@ =~= found_icp_text(account@, answer@));
                (ChatState::Done, ChatAction::Reply(t))
            },
            _ => (ChatState::Done, ChatAction::Reply(String::new())),
        },
        ChatState::FirstReply { conversation, last_user } => match event {
            ChatEvent::ModelReply(reply) => {
                if reply.tool_calls.len() > 0 {
                    let calls = copy_calls(&reply.tool_calls);
                    let mut conv = conversation;
                    let ghost before = messages_view(conv@);
                    let ghost made = ChatMessage::Assistant(reply)@;
                    conv.push(ChatMessage::Assistant(reply));
                    assert(messages_view(conv@) =~= before.push(made));
                    let first_answer = conv.len();
                    proof {
                        let ms = messages_view(conv@);
                        assert(ms[first_answer - 1] == made);
                        lemma_run_tools_answers(ms, calls_view(calls@), 0, first_answer as int);
                    }
                    run_tools_from(conv, calls, 0, first_answer)
                } else {
                    let direct = match reply.content {
                        Some(t) => t,
                        None => String::new(),
                    };
                    let answer = match &last_user {
                        Some(c) => {
                            if mentions_check(c.as_str(), "balance") || mentions_check(
                                c.as_str(),
                                "sui",
                            ) || mentions_check(c.as_str(), "icp") {
                                guidance(c.as_str())
                            } else if direct.as_str().is_empty() {
                                String::from_str(
                                    "I'm here to help you check blockchain balances! Please provide a Sui address (66 chars starting with 0x) or ICP account (64 hex chars) and I'll look up the balance.",
                                )
                            } else {
                                direct
                            }
                        },
                        None => {
                            if direct.as_str().is_empty() {
                                String::from_str(
                                    "I'm here to help you check blockchain balances! Please provide a Sui address (66 chars starting with 0x) or ICP account (64 hex chars) and I'll look up the balance.",
                                )
                            } else {
                                direct
                            }
                        },
                    };
                    (ChatState::Done, ChatAction::Reply(answer))
                }
            },
            _ => (ChatState::Done, ChatAction::Reply(String::new())),
        },
        ChatState::ToolResult { conversation, calls, next, first_answer } => match event {
            ChatEvent::LookupAnswer(answer) => {
                assert(calls_view(calls@).len() == calls@.len());
                assert(next < calls.len());
                let id = calls[next].id.clone();
                let after = next + 1;
                let mut conv = conversation;
                let ghost before = messages_view(conv@);
                let ghost cv = calls_view(calls@);
                conv.push(ChatMessage::Tool { content: answer, tool_call_id: id });
                proof {
                    let ms = messages_view(conv@);
                    assert(ms =~= before.push(MessageView::Tool(e->LookupAnswer_0, cv[next as int].id)));
                    assert forall|k: int| 0 <= k < next + 1 implies (#[trigger] ms[first_answer + k] matches MessageView::Tool(_, id) && id == cv[k].id) by {
                        if k < next {
                            assert(ms[first_answer + k] == before[first_answer + k]);
                        }
                    }
                    assert(ms[first_answer - 1] == before[first_answer - 1]);
                    lemma_run_tools_answers(ms, cv, next + 1, first_answer as int);
                }
                run_tools_from(conv, calls, after, first_answer)
            },
            _ => (ChatState::Done, ChatAction::Reply(String::new())),
        },
        ChatState::FinalReply => match event {
            ChatEvent::ModelReply(reply) => {
                let t = match reply.content {
                    Some(t) => t,
                    None => String::new(),
                };
                (ChatState::Done, ChatAction::Reply(t))
            },
            _ => (ChatState::Done, ChatAction::Reply(String::new())),
        },
        ChatState::Done => (ChatState::Done, ChatAction::Reply(String::new())),
    }
}

/// The kinds of state and event go together: a lookup answer where a lookup
/// is awaited, a model reply where one is awaited.
pub open spec fn kinds_match(s: StateView, e: EventView) -> bool {
    match (s, e) {
        (StateView::DirectSui(_), EventView::LookupAnswer(_)) => true,
        (StateView::DirectIcp(_), EventView::LookupAnswer(_)) => true,
        (StateView::FirstReply(_, _), EventView::ModelReply(_, _)) => true,
        (StateView::ToolResult(_, _, _, _), EventView::LookupAnswer(_)) => true,
        (StateView::FinalReply, EventView::ModelReply(_, _)) => true,
        _ => false,
    }
}

/// The argument that the first known tool call from `from` lacks, if it does.
fn missing_from(calls: &Vec<ToolCall>, from: usize) -> (r: Option<String>)
    requires
        from <= calls.len(),
    ensures
        r is None <==> dispatch_defined(calls_view(calls@), from as int),
        opt_view(r) == missing_argument(calls_view(calls@), from as int),
{
    let ghost cv = calls_view(calls@);
    let mut k = from;
    while k < calls.len()
        invariant
            cv == calls_view(calls@),
            from <= k <= calls.len(),
            first_known(cv, from as int) == first_known(cv, k as int),
        decreases calls.len() - k,
    {
        assert(cv[k as int] == calls@[k as int]@);
        let icp = is_named(&calls[k].function.name, "lookup_icp_balance");
        let sui = is_named(&calls[k].function.name, "lookup_sui_balance");
        if icp || sui {
            proof {
                reveal_strlit("lookup_icp_balance");
                reveal_strlit("lookup_sui_balance");
            }
            let name = if icp {
                String::from_str("account")
            } else {
                String::from_str("address")
            };
            let found = calls[k].function.get(name.as_str());
            return match found {
                Some(_) => None,
                None => Some(name),
            };
        }
        k = k + 1;
    }
    None
}

/// The argument that a known tool call about to run lacks: `account` for
/// `lookup_icp_balance`, `address` for `lookup_sui_balance` (such a call traps
/// with "`account` is required" or "`address` is required"); nothing when
/// `chat_step` may take this event.
pub fn missing_tool_argument(state: &ChatState, event: &ChatEvent) -> (r: Option<String>)
    ensures
        kinds_match(state@, event@) ==> (r is None <==> event_fits(state@, event@)),
        opt_view(r) == missing_for(state@, event@),
{
    match (state, event) {
        (ChatState::FirstReply { .. }, ChatEvent::ModelReply(reply)) => missing_from(
            &reply.tool_calls,
            0,
        ),
        (ChatState::ToolResult { calls, next, .. }, ChatEvent::LookupAnswer(_)) => {
            if *next < calls.len() {
                missing_from(calls, *next + 1)
            } else {
                None
            }
        },
        _ => None,
    }
}

/// Once the tool calls have run, the model is asked again with every call
/// answered by exactly one tool message, in order, right after the assistant
/// message that made the calls, and with no tools.
pub proof fn lemma_tool_calls_answered(s: StateView, e: EventView)
    requires
        chat_wf(s),
        event_fits(s, e),
    ensures
        chat_wf(chat_next(s, e).0),
        (s is FirstReply || s is ToolResult) ==> (chat_next(s, e).1 matches ActionView::AskModel(
            ms,
            ts,
        ) ==> ts.len() == 0 && exists|calls: Seq<ToolCallView>, first_answer: int|
            answered_upto(ms, calls, first_answer, calls.len() as int)),
{
    match (s, e) {
        (StateView::FirstReply(conv, _), EventView::ModelReply(content, calls)) => {
            if calls.len() > 0 {
                let ms = conv.push(MessageView::Assistant(content, calls));
                assert(ms[conv.len() as int] == MessageView::Assistant(content, calls));
                lemma_run_tools_answers(ms, calls, 0, conv.len() + 1int);
                if let ActionView::AskModel(m, _) = chat_next(s, e).1 {
                    assert(answered_upto(m, calls, conv.len() + 1int, calls.len() as int));
                }
            }
        },
        (StateView::ToolResult(conv, calls, next, first_answer), EventView::LookupAnswer(t)) => {
            let ms = conv.push(MessageView::Tool(t, calls[next].id));
            assert forall|k: int| 0 <= k < next + 1 implies (#[trigger] ms[first_answer + k] matches MessageView::Tool(_, id) && id == calls[k].id) by {
                if k < next {
                    assert(ms[first_answer + k] == conv[first_answer + k]);
                }
            }
            assert(ms[first_answer - 1] == conv[first_answer - 1]);
            lemma_run_tools_answers(ms, calls, next + 1, first_answer);
            if let ActionView::AskModel(m, _) = chat_next(s, e).1 {
                assert(answered_upto(m, calls, first_answer, calls.len() as int));
            }
        },
        _ => {},
    }
}


/// With a user message among `m`, messages added before `m` and messages
/// other than user messages added after it leave the last user message as it
/// is in `m`.
proof fn lemma_last_user_of_surrounded(p: Seq<MessageView>, m: Seq<MessageView>, q: Seq<MessageView>)
    requires
        last_user_content(m) is Some,
        forall|i: int| 0 <= i < q.len() ==> !(#[trigger] q[i] is User),
    ensures
        last_user_content(p + m + q) == last_user_content(m),
    decreases m.len() + q.len(),
{
    if q.len() > 0 {
        let q2 = q.drop_last();
        assert((p + m + q).last() == q.last());
        assert(!(q[q.len() - 1] is User));
        assert((p + m + q).drop_last() =~= p + m + q2);
        assert forall|i: int| 0 <= i < q2.len() implies !(#[trigger] q2[i] is User) by {
            assert(q2[i] == q[i]);
        }
        lemma_last_user_of_surrounded(p, m, q2);
    } else {
        assert(p + m + q =~= p + m);
        assert((p + m).last() == m.last());
        if !(m.last() is User) {
            assert((p + m).drop_last() =~= p + m.drop_last());
            assert(m.drop_last() + Seq::<MessageView>::empty() =~= m.drop_last());
            assert(p + m.drop_last() + Seq::<MessageView>::empty() =~= p + m.drop_last());
            lemma_last_user_of_surrounded(p, m.drop_last(), Seq::empty());
        }
    }
}

/// Only the last user message decides whether a conversation starts with a
/// direct lookup, and which: messages before it, and messages other than
/// user messages after it, change neither that nor what is looked up; when
/// the model is asked, it is asked about the same last user message.
pub proof fn lemma_start_decided_by_last_user(p: Seq<MessageView>, m: Seq<MessageView>, q: Seq<MessageView>)
    requires
        last_user_content(m) is Some,
        forall|i: int| 0 <= i < q.len() ==> !(#[trigger] q[i] is User),
    ensures
        (chat_start(m).0 is DirectSui || chat_start(m).0 is DirectIcp) ==> chat_start(p + m + q)
            == chat_start(m),
        (chat_start(p + m + q).0 is DirectSui || chat_start(p + m + q).0 is DirectIcp) ==> chat_start(
            p + m + q,
        ) == chat_start(m),
        chat_start(p + m + q).0 matches StateView::FirstReply(_, lu) ==> lu == last_user_content(m)
            && chat_start(m).0 is FirstReply,
{
    lemma_last_user_of_surrounded(p, m, q);
}

/// A conversation carried through the tool calls only grows: what it held
/// stays at the front, in the state and in the next request to the model.
proof fn lemma_run_tools_extends(conv: Seq<MessageView>, calls: Seq<ToolCallView>, from: int, first_answer: int)
    ensures
        run_tools(conv, calls, from, first_answer).0 matches StateView::ToolResult(c, _, _, _)
            ==> conv.is_prefix_of(c),
        run_tools(conv, calls, from, first_answer).1 matches ActionView::AskModel(ms, _)
            ==> conv.is_prefix_of(ms),
    decreases calls.len() - from,
{
    if from < 0 || from >= calls.len() {
        assert(conv.subrange(0, conv.len() as int) =~= conv);
    } else if is_known_tool(calls[from].name) {
        assert(conv.subrange(0, conv.len() as int) =~= conv);
    } else {
        let next = conv.push(MessageView::Tool(unknown_tool_text(calls[from].name), calls[from].id));
        lemma_run_tools_extends(next, calls, from + 1, first_answer);
        assert(next.subrange(0, conv.len() as int) =~= conv);
        if let StateView::ToolResult(c, _, _, _) = run_tools(next, calls, from + 1, first_answer).0 {
            assert(c.subrange(0, conv.len() as int) =~= next.subrange(0, conv.len() as int));
        }
        if let ActionView::AskModel(ms, _) = run_tools(next, calls, from + 1, first_answer).1 {
            assert(ms.subrange(0, conv.len() as int) =~= next.subrange(0, conv.len() as int));
        }
    }
}

/// The answer to a tool call's lookup is handed on: the conversation that
/// follows, and the request that finally goes to the model, hold everything
/// before it and then the answer's text itself as the tool message for that
/// call.
pub proof fn lemma_lookup_answer_carried(
    conv: Seq<MessageView>,
    calls: Seq<ToolCallView>,
    next: int,
    first_answer: int,
    answer: Seq<char>,
)
    ensures
        chat_next(StateView::ToolResult(conv, calls, next, first_answer), EventView::LookupAnswer(answer)).0
            matches StateView::ToolResult(c, _, _, _) ==> conv.push(
            MessageView::Tool(answer, calls[next].id),
        ).is_prefix_of(c),
        chat_next(StateView::ToolResult(conv, calls, next, first_answer), EventView::LookupAnswer(answer)).1
            matches ActionView::AskModel(ms, _) ==> conv.push(
            MessageView::Tool(answer, calls[next].id),
        ).is_prefix_of(ms),
{
    lemma_run_tools_extends(
        conv.push(MessageView::Tool(answer, calls[next].id)),
        calls,
        next + 1,
        first_answer,
    );
}


/// A message is a balance request exactly when its lower-case form contains
/// `balance`, `amount`, `sui` or `icp`.
pub proof fn lemma_balance_request_words(c: Seq<char>)
    ensures
        is_balance_request(c) <==> (has_substring(lowercase(c), "balance"@) || has_substring(
            lowercase(c),
            "amount"@,
        ) || has_substring(lowercase(c), "sui"@) || has_substring(lowercase(c), "icp"@)),
{
}

/// When the last user message mentions `balance`, `amount`, `sui` or `icp`
/// in any case and has a word that is a Sui address, the conversation starts
/// by looking up the first such address; with no Sui address but an ICP
/// account word, by looking up the first such account. A last user message
/// that mentions none of the four words, or a conversation without a user
/// message, goes to the model.
pub proof fn lemma_direct_lookup_start(ms: Seq<MessageView>)
    ensures
        last_user_content(ms) matches Some(c) ==> ((has_substring(lowercase(c), "balance"@)
            || has_substring(lowercase(c), "amount"@) || has_substring(lowercase(c), "sui"@)
            || has_substring(lowercase(c), "icp"@)) ==> {
            &&& first_sui_address(words(c)) matches Some(a) ==> chat_start(ms) == (
                StateView::DirectSui(a),
                ActionView::LookupSui(a),
            )
            &&& first_sui_address(words(c)) is None ==> (first_icp_account(words(c)) matches Some(
                a,
            ) ==> chat_start(ms) == (StateView::DirectIcp(a), ActionView::LookupIcp(a)))
            &&& (first_sui_address(words(c)) is None && first_icp_account(words(c)) is None)
                ==> chat_start(ms).1 is AskModel
        }),
        last_user_content(ms) matches Some(c) ==> (!(has_substring(lowercase(c), "balance"@)
            || has_substring(lowercase(c), "amount"@) || has_substring(lowercase(c), "sui"@)
            || has_substring(lowercase(c), "icp"@)) ==> chat_start(ms).1 is AskModel),
        last_user_content(ms) is None ==> chat_start(ms).1 is AskModel,
{
}

/// When the model is asked first, it gets the instructions, then every
/// message of the conversation in order, then, only when the last user
/// message mentions `balance` or `sui` in any case, the request to use a
/// tool; with the balance tools. The state keeps that same request, and the
/// last user message.
pub proof fn lemma_first_request_carries_conversation(ms: Seq<MessageView>)
    ensures
        chat_start(ms).1 matches ActionView::AskModel(req, tools) ==> {
            &&& tools == balance_tools_view()
            &&& req.len() == ms.len() + 1 || req.len() == ms.len() + 2
            &&& req[0] == MessageView::System(system_prompt_text())
            &&& forall|i: int| 0 <= i < ms.len() ==> req[i + 1] == #[trigger] ms[i]
            &&& (req.len() == ms.len() + 2 <==> (last_user_content(ms) matches Some(c) && (
            has_substring(lowercase(c), "balance"@) || has_substring(lowercase(c), "sui"@))))
            &&& req.len() == ms.len() + 2 ==> req[ms.len() as int + 1] == MessageView::User(
                tool_nudge_text(),
            )
            &&& chat_start(ms).0 == StateView::FirstReply(req, last_user_content(ms))
        },
{
    if let ActionView::AskModel(req, _) = chat_start(ms).1 {
        assert forall|i: int| 0 <= i < ms.len() implies req[i + 1] == #[trigger] ms[i] by {
            assert(req == first_request(ms));
        }
    }
}

/// The guidance for a balance question: about a Sui address whenever the
/// message contains `0x`; otherwise, asking which kind of address it is when
/// the message is longer than 60 bytes and contains a hexadecimal digit;
/// otherwise, what to provide.
pub proof fn lemma_guidance_choice(content: Seq<char>)
    ensures
        has_substring(content, "0x"@) ==> guidance_text(content)
            == "I can see you're asking about a Sui address balance. Let me help you with that. Please provide the complete Sui address (66 characters starting with 0x) and I'll look up the balance for you."@,
        (!has_substring(content, "0x"@) && encode_utf8(content).len() > 60 && exists|i: int|
            0 <= i < content.len() && is_hex_digit(#[trigger] content[i])) ==> guidance_text(
            content,
        ) == "I can see you're asking about a crypto balance. Please clarify if this is a Sui address (starts with 0x, 66 chars) or an ICP account (64 hex chars), and I'll look it up for you."@,
        (!has_substring(content, "0x"@) && !(encode_utf8(content).len() > 60 && exists|i: int|
            0 <= i < content.len() && is_hex_digit(#[trigger] content[i]))) ==> guidance_text(
            content,
        ) == "I can help you check cryptocurrency balances! Please provide:\n- For Sui: a 66-character address starting with 0x\n- For ICP: a 64-character hexadecimal account identifier"@,
{
}

/// When the model calls no tool, the answer is the guidance for the last
/// user message when that mentions `balance`, `sui` or `icp` in any case;
/// otherwise the model's text, or the fallback when it gave none.
pub proof fn lemma_no_tool_call_answer(conv: Seq<MessageView>, last_user: Option<Seq<char>>, content: Option<Seq<char>>)
    ensures
        chat_next(
            StateView::FirstReply(conv, last_user),
            EventView::ModelReply(content, Seq::empty()),
        ).0 == StateView::Done,
        last_user matches Some(c) ==> ((has_substring(lowercase(c), "balance"@) || has_substring(
            lowercase(c),
            "sui"@,
        ) || has_substring(lowercase(c), "icp"@)) ==> chat_next(
            StateView::FirstReply(conv, last_user),
            EventView::ModelReply(content, Seq::empty()),
        ).1 == ActionView::Reply(guidance_text(c))),
        !(last_user matches Some(c) && (has_substring(lowercase(c), "balance"@) || has_substring(
            lowercase(c),
            "sui"@,
        ) || has_substring(lowercase(c), "icp"@))) ==> chat_next(
            StateView::FirstReply(conv, last_user),
            EventView::ModelReply(content, Seq::empty()),
        ).1 == ActionView::Reply(
            match content {
                Some(t) => if t.len() > 0 {
                    t
                } else {
                    fallback_text()
                },
                None => fallback_text(),
            },
        ),
{
}

} // verus!
