use crate::config::{AlarmConfig, AlarmView};
use crate::text;
use vstd::prelude::*;

verus! {

/// The messages that flow between the controller, the scheduler and the
/// audio runner.
#[derive(Debug, PartialEq)]
pub enum Message {
    /// Audio file path and output volume in percent [0, 100]
    AudioAndVolume(String, u32),
    /// New alarm configuration list
    Reconfigure(Vec<AlarmConfig>),
    /// Request help message
    Help,
    /// Show configuration
    Show,
    /// Notify to stop the running alarm
    StopAlarm,
    /// Stop the application
    Quit,
}

/// The mathematical picture of a message.
#[verifier::ext_equal]
pub enum MessageView {
    AudioAndVolume(Seq<char>, u32),
    Reconfigure(Seq<AlarmView>),
    Help,
    Show,
    StopAlarm,
    Quit,
}

impl View for Message {
    type V = MessageView;

    open spec fn view(&self) -> MessageView {
        match self {
            Message::AudioAndVolume(f, v) => MessageView::AudioAndVolume(f@, *v),
            Message::Reconfigure(l) => MessageView::Reconfigure(
                l@.map_values(|c: AlarmConfig| c@),
            ),
            Message::Help => MessageView::Help,
            Message::Show => MessageView::Show,
            Message::StopAlarm => MessageView::StopAlarm,
            Message::Quit => MessageView::Quit,
        }
    }
}

impl Message {
    /// The keyboard token that stands for this message; messages no keyboard
    /// token stands for answer with a fixed placeholder.
    pub fn as_str(&self) -> (r: &str)
        ensures
            r@ == spec_token(self@),
    {
        match self {
            Message::StopAlarm => "stop",
            Message::Quit => "quit",
            Message::Show => "show",
            Message::Help => "help",
            _ => "other_message",
        }
    }
}

/// The keyboard token of each message.
pub open spec fn spec_token(m: MessageView) -> Seq<char> {
    match m {
        MessageView::StopAlarm => "stop"@,
        MessageView::Quit => "quit"@,
        MessageView::Show => "show"@,
        MessageView::Help => "help"@,
        _ => "other_message"@,
    }
}

/// What a keyboard line means: after trimming whitespace and folding ASCII
/// case, exactly the four recognized tokens map to messages; anything else is
/// ignored.
pub open spec fn spec_interpret(s: Seq<char>) -> Option<MessageView> {
    let t = text::spec_lower(text::spec_trim(s));
    if t == "quit"@ {
        Some(MessageView::Quit)
    } else if t == "stop"@ {
        Some(MessageView::StopAlarm)
    } else if t == "show"@ {
        Some(MessageView::Show)
    } else if t == "help"@ {
        Some(MessageView::Help)
    } else {
        None
    }
}

/// Turns one line of keyboard input into its semantic message, or `None` for
/// a line that means nothing.
pub fn interpret_command(line: &str) -> (r: Option<Message>)
    ensures
        r is Some <==> spec_interpret(line@) is Some,
        r matches Some(m) ==> Some(m@) == spec_interpret(line@),
{
    let chars = text::chars_of(line);
    let trimmed = text::trim_chars(&chars);
    let t = text::lower_chars(&trimmed);
    if text::chars_eq(&t, &text::chars_of("quit")) {
        Some(Message::Quit)
    } else if text::chars_eq(&t, &text::chars_of("stop")) {
        Some(Message::StopAlarm)
    } else if text::chars_eq(&t, &text::chars_of("show")) {
        Some(Message::Show)
    } else if text::chars_eq(&t, &text::chars_of("help")) {
        Some(Message::Help)
    } else {
        None
    }
}

/// What the controller does with a message read from the keyboard channel.
#[derive(Debug, Clone, Copy, PartialEq, Eq, Structural)]
pub enum KeyboardRoute {
    /// Forward the message to the scheduler.
    Forward,
    /// Forward the message to the scheduler, then stop the controller loop.
    ForwardAndQuit,
    /// Print the loaded configuration; nothing is forwarded.
    ShowConfig,
    /// Print the usage text; nothing is forwarded.
    PrintHelp,
    /// Nothing to do.
    Ignore,
}

/// The controller's routing rule: `StopAlarm` and `Quit` go to the scheduler
/// (`Quit` also ends the controller), `Show` and `Help` are handled by the
/// controller alone, and nothing else has an effect.
pub open spec fn spec_route_keyboard(m: MessageView) -> KeyboardRoute {
    match m {
        MessageView::StopAlarm => KeyboardRoute::Forward,
        MessageView::Quit => KeyboardRoute::ForwardAndQuit,
        MessageView::Show => KeyboardRoute::ShowConfig,
        MessageView::Help => KeyboardRoute::PrintHelp,
        _ => KeyboardRoute::Ignore,
    }
}

/// Routes a keyboard message as the controller must.
pub fn route_keyboard(m: &Message) -> (r: KeyboardRoute)
    ensures
        r == spec_route_keyboard(m@),
{
    match m {
        Message::StopAlarm => KeyboardRoute::Forward,
        Message::Quit => KeyboardRoute::ForwardAndQuit,
        Message::Show => KeyboardRoute::ShowConfig,
        Message::Help => KeyboardRoute::PrintHelp,
        _ => KeyboardRoute::Ignore,
    }
}

} // verus!
