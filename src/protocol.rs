use vstd::prelude::*;

use crate::script_states::ScriptStates;

verus! {

/// A message with the integer discriminant that the wire format carries.
pub trait JsonMessage {
    fn message_id(&self) -> u8;
}

/// Asks for the state of every object; answered by a reload notification.
#[derive(Debug)]
pub struct MessageGetScripts {
    pub message_id: u8,
}

impl MessageGetScripts {
    pub fn new() -> (r: MessageGetScripts)
        ensures
            r.message_id == 0,
    {
        MessageGetScripts { message_id: 0 }
    }
}

impl JsonMessage for MessageGetScripts {
    fn message_id(&self) -> u8 {
        self.message_id
    }
}

/// Replaces the scripts and UI of the listed objects and reloads the save;
/// answered by a reload notification.
#[derive(Debug)]
pub struct MessageReload {
    pub message_id: u8,
    pub script_states: ScriptStates,
}

impl MessageReload {
    pub fn new(script_states: ScriptStates) -> (r: MessageReload)
        ensures
            r.message_id == 1,
            r.script_states == script_states,
    {
        MessageReload { message_id: 1, script_states }
    }
}

impl JsonMessage for MessageReload {
    fn message_id(&self) -> u8 {
        self.message_id
    }
}

/// A payload, as JSON text, forwarded to the game's external message handler.
#[derive(Debug)]
pub struct MessageCustomMessage {
    pub message_id: u8,
    pub custom_message: String,
}

impl MessageCustomMessage {
    pub fn new(custom_message: String) -> (r: MessageCustomMessage)
        ensures
            r.message_id == 2,
            r.custom_message == custom_message,
    {
        MessageCustomMessage { message_id: 2, custom_message }
    }
}

impl JsonMessage for MessageCustomMessage {
    fn message_id(&self) -> u8 {
        self.message_id
    }
}

/// Runs a script in the game, globally; answered by a return notification.
#[derive(Debug)]
pub struct MessageExectute {
    pub message_id: u8,
    pub return_id: u8,
    pub guid: String,
    pub script: String,
}

impl MessageExectute {
    pub fn new(script: String) -> (r: MessageExectute)
        ensures
            r.message_id == 3,
            r.return_id == 5,
            r.guid@ == crate::script_states::global_guid(),
            r.script == script,
    {
        proof {
            reveal_strlit("-1");
        }
        let guid = String::from_str("-1");
        assert(guid@ =~= crate::script_states::global_guid());
        MessageExectute { message_id: 3, return_id: 5, guid, script }
    }
}

impl JsonMessage for MessageExectute {
    fn message_id(&self) -> u8 {
        self.message_id
    }
}

/// The state of an object whose script editor was opened in the game while
/// it had no script.
#[derive(Debug)]
pub struct AnswerNewObject {
    pub script_states: ScriptStates,
}

/// Sent when a save was loaded or reloaded: where it lies and its states.
#[derive(Debug)]
pub struct AnswerReload {
    pub save_path: String,
    pub script_states: ScriptStates,
}

/// A line that a script printed.
#[derive(Debug)]
pub struct AnswerPrint {
    pub message: String,
}

/// An error raised in the game.
#[derive(Debug)]
pub struct AnswerError {
    pub error: String,
    pub guid: String,
    pub error_message_prefix: String,
}

/// A payload, as JSON text, that a script sent out.
#[derive(Debug)]
pub struct AnswerCustomMessage {
    pub custom_message: String,
}

/// What an executed script returned.
#[derive(Debug)]
pub struct AnswerReturn {
    pub return_id: u64,
    pub return_value: Option<String>,
}

/// The game was saved.
#[derive(Debug)]
pub struct AnswerGameSaved {}

/// An object was created in the game.
#[derive(Debug)]
pub struct AnswerObjectCreated {
    pub guid: String,
}

/// The kinds of message the game sends, by discriminant.
#[derive(PartialEq, Eq, Structural, Clone, Copy, Debug)]
pub enum AnswerKind {
    NewObject,
    Reload,
    Print,
    Error,
    CustomMessage,
    Return,
    GameSaved,
    ObjectCreated,
}

pub open spec fn kind_of_id(id: u64) -> Option<AnswerKind> {
    if id == 0 {
        Some(AnswerKind::NewObject)
    } else if id == 1 {
        Some(AnswerKind::Reload)
    } else if id == 2 {
        Some(AnswerKind::Print)
    } else if id == 3 {
        Some(AnswerKind::Error)
    } else if id == 4 {
        Some(AnswerKind::CustomMessage)
    } else if id == 5 {
        Some(AnswerKind::Return)
    } else if id == 6 {
        Some(AnswerKind::GameSaved)
    } else if id == 7 {
        Some(AnswerKind::ObjectCreated)
    } else {
        None
    }
}

impl AnswerKind {
    /// The kind with discriminant `id`, if the protocol has one.
    pub fn from_id(id: u64) -> (r: Option<AnswerKind>)
        ensures
            r == kind_of_id(id),
    {
        if id == 0 {
            Some(AnswerKind::NewObject)
        } else if id == 1 {
            Some(AnswerKind::Reload)
        } else if id == 2 {
            Some(AnswerKind::Print)
        } else if id == 3 {
            Some(AnswerKind::Error)
        } else if id == 4 {
            Some(AnswerKind::CustomMessage)
        } else if id == 5 {
            Some(AnswerKind::Return)
        } else if id == 6 {
            Some(AnswerKind::GameSaved)
        } else if id == 7 {
            Some(AnswerKind::ObjectCreated)
        } else {
            None
        }
    }

    /// The discriminant of this kind.
    pub fn id(&self) -> (r: u64)
        ensures
            kind_of_id(r) == Some(*self),
    {
        match self {
            AnswerKind::NewObject => 0,
            AnswerKind::Reload => 1,
            AnswerKind::Print => 2,
            AnswerKind::Error => 3,
            AnswerKind::CustomMessage => 4,
            AnswerKind::Return => 5,
            AnswerKind::GameSaved => 6,
            AnswerKind::ObjectCreated => 7,
        }
    }
}

/// A message from the game; one whose discriminant the protocol does not
/// know is kept as such rather than refused.
#[derive(Debug)]
pub enum Answer {
    NewObject(AnswerNewObject),
    Reload(AnswerReload),
    Print(AnswerPrint),
    Error(AnswerError),
    CustomMessage(AnswerCustomMessage),
    Return(AnswerReturn),
    GameSaved(AnswerGameSaved),
    ObjectCreated(AnswerObjectCreated),
    Unrecognized(u64),
}

pub open spec fn answer_kind(a: Answer) -> Option<AnswerKind> {
    match a {
        Answer::NewObject(_) => Some(AnswerKind::NewObject),
        Answer::Reload(_) => Some(AnswerKind::Reload),
        Answer::Print(_) => Some(AnswerKind::Print),
        Answer::Error(_) => Some(AnswerKind::Error),
        Answer::CustomMessage(_) => Some(AnswerKind::CustomMessage),
        Answer::Return(_) => Some(AnswerKind::Return),
        Answer::GameSaved(_) => Some(AnswerKind::GameSaved),
        Answer::ObjectCreated(_) => Some(AnswerKind::ObjectCreated),
        Answer::Unrecognized(_) => None,
    }
}

impl Answer {
    /// The kind of the message, `None` for an unrecognized one.
    pub fn kind(&self) -> (r: Option<AnswerKind>)
        ensures
            r == answer_kind(*self),
    {
        match self {
            Answer::NewObject(_) => Some(AnswerKind::NewObject),
            Answer::Reload(_) => Some(AnswerKind::Reload),
            Answer::Print(_) => Some(AnswerKind::Print),
            Answer::Error(_) => Some(AnswerKind::Error),
            Answer::CustomMessage(_) => Some(AnswerKind::CustomMessage),
            Answer::Return(_) => Some(AnswerKind::Return),
            Answer::GameSaved(_) => Some(AnswerKind::GameSaved),
            Answer::ObjectCreated(_) => Some(AnswerKind::ObjectCreated),
            Answer::Unrecognized(_) => None,
        }
    }
}

/// What became of a message that arrived.
#[derive(Debug)]
pub enum Delivery {
    /// The answer to the outstanding request.
    Reply(Answer),
    /// An error notification that ends the outstanding request as a failure.
    Failed(AnswerError),
    /// A message for no request: a notification to show.
    Notification(Answer),
}

/// The editor's side of the protocol: it pairs each message that arrives
/// with the outstanding request by discriminant, never by connection.
#[derive(Debug)]
pub struct ExternalEditorApi {
    /// The kind of answer the outstanding request waits for, if any.
    pub pending: Option<AnswerKind>,
}

impl ExternalEditorApi {
    /// No request outstanding.
    pub fn new() -> (r: ExternalEditorApi)
        ensures
            r.pending is None,
    {
        ExternalEditorApi { pending: None }
    }

    /// The request for every object's state; its answer is a reload
    /// notification.
    pub fn get_scripts(&mut self) -> (r: MessageGetScripts)
        ensures
            r.message_id == 0,
            final(self).pending == Some(AnswerKind::Reload),
    {
        self.pending = Some(AnswerKind::Reload);
        MessageGetScripts::new()
    }

    /// The request to replace scripts and UI and reload the save; its answer
    /// is a reload notification.
    pub fn reload(&mut self, script_states: ScriptStates) -> (r: MessageReload)
        ensures
            r.message_id == 1,
            r.script_states == script_states,
            final(self).pending == Some(AnswerKind::Reload),
    {
        self.pending = Some(AnswerKind::Reload);
        MessageReload::new(script_states)
    }

    /// A custom message; nothing answers it.
    pub fn custom_message(&self, message: String) -> (r: MessageCustomMessage)
        ensures
            r.message_id == 2,
            r.custom_message == message,
    {
        MessageCustomMessage::new(message)
    }

    /// The request to run `script` globally; its answer is a return
    /// notification.
    pub fn execute(&mut self, script: String) -> (r: MessageExectute)
        ensures
            r.message_id == 3,
            r.return_id == 5,
            r.guid@ == crate::script_states::global_guid(),
            r.script == script,
            final(self).pending == Some(AnswerKind::Return),
    {
        self.pending = Some(AnswerKind::Return);
        MessageExectute::new(script)
    }

    /// Routes a message that arrived. The answer the outstanding request waits
    /// for is its reply; an error notification while a request is outstanding
    /// is that request's failure; either ends the request. Anything else is a
    /// notification and leaves the request outstanding.
    pub fn receive(&mut self, answer: Answer) -> (r: Delivery)
        ensures
            old(self).pending is Some && answer_kind(answer) == old(self).pending
                ==> r == Delivery::Reply(answer) && final(self).pending is None,
            old(self).pending is Some && answer_kind(answer) != old(self).pending && answer is Error
                ==> r == Delivery::Failed(answer->Error_0) && final(self).pending is None,
            old(self).pending is None || (answer_kind(answer) != old(self).pending && !(answer is Error))
                ==> r == Delivery::Notification(answer) && final(self).pending == old(self).pending,
    {
        match self.pending {
            Some(k) => {
                if answer.kind() == Some(k) {
                    self.pending = None;
                    Delivery::Reply(answer)
                } else {
                    match answer {
                        Answer::Error(e) => {
                            self.pending = None;
                            Delivery::Failed(e)
                        },
                        other => Delivery::Notification(other),
                    }
                }
            },
            None => Delivery::Notification(answer),
        }
    }
}

/// How the console shows a line.
#[derive(PartialEq, Eq, Structural, Clone, Copy, Debug)]
pub enum LineStyle {
    Print,
    Error,
    Loaded,
}

/// A line the console shows for a notification.
#[derive(Debug)]
pub struct ConsoleLine {
    pub style: LineStyle,
    pub text: String,
}

/// The line the console shows for `answer`: what a script printed, an
/// error's prefix and text, or the end of a load; nothing for other messages.
pub fn console_line(answer: &Answer) -> (r: Option<ConsoleLine>)
    ensures
        answer is Print ==> r is Some && r->Some_0.style == LineStyle::Print && r->Some_0.text@
            == answer->Print_0.message@,
        answer is Error ==> r is Some && r->Some_0.style == LineStyle::Error && r->Some_0.text@
            == answer->Error_0.error_message_prefix@ + answer->Error_0.error@,
        answer is Reload ==> r is Some && r->Some_0.style == LineStyle::Loaded && r->Some_0.text@
            == "Loading complete."@,
        !(answer is Print || answer is Error || answer is Reload) ==> r is None,
{
    match answer {
        Answer::Print(a) => Some(ConsoleLine { style: LineStyle::Print, text: a.message.clone() }),
        Answer::Error(a) => {
            let mut text = a.error_message_prefix.clone();
            text.append(a.error.as_str());
            Some(ConsoleLine { style: LineStyle::Error, text })
        },
        Answer::Reload(_) => Some(
            ConsoleLine { style: LineStyle::Loaded, text: String::from_str("Loading complete.") },
        ),
        _ => None,
    }
}

/// Whether the console starts a reload pass for `answer`: in watch mode, each
/// time a load completes.
pub fn reload_triggered(answer: &Answer, watching: bool) -> (r: bool)
    ensures
        r == (watching && answer is Reload),
{
    watching && match answer {
        Answer::Reload(_) => true,
        _ => false,
    }
}

} // verus!
