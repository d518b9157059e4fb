use vstd::prelude::*;

verus! {

/// The chat models the service offers.
#[allow(non_camel_case_types)]
#[derive(Debug, Copy, Clone, PartialEq, Eq, Structural)]
pub enum ChatModel {
    GPT3,
    GPT3_16K,
    GPT4_MAY,
    GPT4,
    GPT4_TURBO,
}

/// How the model may call the functions it is offered.
#[derive(Debug, Clone)]
pub enum FunctionCallType {
    Auto,
    /// The model calls no function.
    Disabled,
    Name(String),
}

/// Token counts that the service reports for one completion.
#[derive(Debug, Default, Clone, Copy)]
pub struct ChatUsage {
    pub prompt_tokens: u32,
    pub completion_tokens: u32,
    pub total_tokens: u32,
}

/// A call of a function that the assistant asked for.
#[derive(Debug, Clone)]
pub struct FunctionCall {
    pub name: String,
    pub arguments: String,
}

/// What an assistant message carries: text, or a function call.
#[derive(Debug, Clone)]
pub enum AssistantContent {
    Content { content: String },
    FunctionCall { function_call: FunctionCall },
}

/// One message of a conversation, by role.
#[derive(Debug, Clone)]
pub enum ChatMessage {
    User { content: String, name: Option<String> },
    System { content: String },
    Assistant { content: AssistantContent, name: Option<String> },
    /// The result of a function, whose name is given by the name field.
    Function { content: String, name: String },
}

/// One answer of a completion.
#[derive(Debug, Clone)]
pub struct ChatChoice {
    pub index: u32,
    pub message: ChatMessage,
    pub finish_reason: String,
}

/// A complete answer of the service.
#[derive(Debug)]
pub struct ChatResponse {
    pub id: String,
    pub object: String,
    pub created: u64,
    pub choices: Vec<ChatChoice>,
    pub usage: ChatUsage,
}

/// One change that a streamed answer carries.
#[derive(Debug, Clone)]
pub enum ChatDelta {
    Role(String),
    Content(String),
}

/// One choice of a streamed event.
#[derive(Debug, Clone)]
pub struct StreamChoice {
    pub index: u32,
    pub delta: Option<ChatDelta>,
    pub finish_reason: Option<String>,
}

/// One event of a streamed answer.
#[derive(Debug)]
pub struct ChatStream {
    pub id: String,
    pub object: String,
    pub created: u64,
    pub choices: Vec<StreamChoice>,
}

/// The narration of a streamed answer and the JSON object found in it, if any.
#[derive(Debug, Clone)]
pub struct JsonResponse {
    pub antecedent: String,
    pub json: Option<String>,
}

/// The function call that a message carries, if it is an assistant's call.
pub open spec fn call_of(m: ChatMessage) -> Option<FunctionCall> {
    match m {
        ChatMessage::Assistant { content: AssistantContent::FunctionCall { function_call }, .. } => Some(
            function_call,
        ),
        _ => None,
    }
}

/// The text of a message; an assistant's function call has none.
pub open spec fn text_of(m: ChatMessage) -> Option<Seq<char>> {
    match m {
        ChatMessage::User { content, .. } => Some(content@),
        ChatMessage::System { content } => Some(content@),
        ChatMessage::Assistant { content: AssistantContent::Content { content }, .. } => Some(
            content@,
        ),
        ChatMessage::Assistant { content: AssistantContent::FunctionCall { .. }, .. } => None,
        ChatMessage::Function { content, .. } => Some(content@),
    }
}

/// The view of an optional string.
pub open spec fn opt_view(s: Option<String>) -> Option<Seq<char>> {
    match s {
        Some(t) => Some(t@),
        None => None,
    }
}

impl ChatResponse {
    /// The message of the first choice.
    pub fn message(&self) -> (r: Option<&ChatMessage>)
        ensures
            self.choices@.len() > 0 ==> r == Some(&self.choices@[0].message),
            self.choices@.len() == 0 ==> r is None,
    {
        if self.choices.len() > 0 {
            Some(&self.choices[0].message)
        } else {
            None
        }
    }

    /// The function call of the first choice, if its message is an assistant's call.
    pub fn function_call(&self) -> (r: Option<&FunctionCall>)
        ensures
            r is Some <==> (self.choices@.len() > 0 && call_of(self.choices@[0].message) is Some),
            r matches Some(c) ==> call_of(self.choices@[0].message) == Some(*c),
    {
        match self.message() {
            Some(m) => match m {
                ChatMessage::Assistant {
                    content: AssistantContent::FunctionCall { function_call },
                    ..
                } => Some(function_call),
                _ => None,
            },
            None => None,
        }
    }

    /// The messages of all choices, in order.
    pub fn messages(&self) -> (r: Vec<&ChatMessage>)
        ensures
            r@.len() == self.choices@.len(),
            forall|i: int| 0 <= i < r@.len() ==> *r@[i] == self.choices@[i].message,
    {
        let mut out: Vec<&ChatMessage> = Vec::new();
        let n = self.choices.len();
        for i in 0..n
            invariant
                n == self.choices@.len(),
                out@.len() == i,
                forall|j: int| 0 <= j < i ==> *out@[j] == self.choices@[j].message,
        {
            out.push(&self.choices[i].message);
        }
        out
    }

    /// The token counts of the answer.
    pub fn tokens(&self) -> (r: ChatUsage)
        ensures
            r == self.usage,
    {
        self.usage
    }
}

/// A copy of a delta.
fn copy_delta(d: &ChatDelta) -> (r: ChatDelta)
    ensures
        r == *d,
{
    match d {
        ChatDelta::Role(s) => ChatDelta::Role(s.clone()),
        ChatDelta::Content(s) => ChatDelta::Content(s.clone()),
    }
}

impl ChatStream {
    /// The delta of the first choice, if there is one.
    pub fn delta(&self) -> (r: Option<ChatDelta>)
        ensures
            self.choices@.len() > 0 ==> r == self.choices@[0].delta,
            self.choices@.len() == 0 ==> r is None,
    {
        if self.choices.len() > 0 {
            match &self.choices[0].delta {
                Some(d) => Some(copy_delta(d)),
                None => None,
            }
        } else {
            None
        }
    }
}

impl FunctionCall {
    /// The name of the function to call.
    pub fn name(&self) -> (r: String)
        ensures
            r@ == self.name@,
    {
        self.name.clone()
    }

    /// The arguments of the call, as JSON text.
    pub fn arguments(&self) -> (r: String)
        ensures
            r@ == self.arguments@,
    {
        self.arguments.clone()
    }
}

impl ChatMessage {
    pub fn new_user(content: &str, name: Option<String>) -> (r: Self)
        ensures
            r matches ChatMessage::User { content: c, name: n } && c@ == content@ && n == name,
    {
        ChatMessage::User { content: content.to_owned(), name }
    }

    pub fn new_system(content: &str) -> (r: Self)
        ensures
            r matches ChatMessage::System { content: c } && c@ == content@,
    {
        ChatMessage::System { content: content.to_owned() }
    }

    pub fn new_assistant(content: &str) -> (r: Self)
        ensures
            r matches ChatMessage::Assistant {
                content: AssistantContent::Content { content: c },
                name: n,
            } && c@ == content@ && n is None,
    {
        ChatMessage::Assistant {
            content: AssistantContent::Content { content: content.to_owned() },
            name: None,
        }
    }

    pub fn new_function(content: &str, name: &str) -> (r: Self)
        ensures
            r matches ChatMessage::Function { content: c, name: n } && c@ == content@ && n@
                == name@,
    {
        ChatMessage::Function { content: content.to_owned(), name: name.to_owned() }
    }

    /// The text of the message; `None` for an assistant's function call.
    pub fn content(&self) -> (r: Option<String>)
        ensures
            opt_view(r) == text_of(*self),
    {
        match self {
            ChatMessage::User { content, .. } => Some(content.clone()),
            ChatMessage::System { content } => Some(content.clone()),
            ChatMessage::Assistant { content: AssistantContent::Content { content }, .. } => Some(
                content.clone(),
            ),
            ChatMessage::Assistant { content: AssistantContent::FunctionCall { .. }, .. } => None,
            ChatMessage::Function { content, .. } => Some(content.clone()),
        }
    }
}

impl JsonResponse {
    /// The narration followed by the JSON object, if one was found.
    pub fn to_full_string(&self) -> (r: String)
        ensures
            r@ == self.antecedent@ + match opt_view(self.json) {
                Some(j) => j,
                None => Seq::empty(),
            },
    {
        let mut out = self.antecedent.clone();
        match &self.json {
            Some(json) => {
                out.append(json.as_str());
            },
            None => {
                assert(out@ + Seq::<char>::empty() =~= out@);
            },
        }
        out
    }
}

} // verus!
