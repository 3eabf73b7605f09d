//! The errors that the library itself reports.

use vstd::prelude::*;
use vstd::string::*;

verus! {

/// An error of the hotkey logic.
#[derive(Debug)]
pub enum InputError {
    /// The receiver of hotkey events does not keep up.
    QueueOverflow,
    /// A name that begins with `f` and is no function key up to F24.
    UnsupportedFunctionKey { key: String },
    /// A name that stands for no key.
    UnsupportedKey { key: String },
    /// The keyboard has no key for this keysym.
    MissingKeysym { keysym: u32 },
    /// None of the requested keys acts as a modifier.
    UnmappedModifier,
    /// The listener did not report in time whether it registered.
    RegistrationTimedOut,
}

/// The lower-case hexadecimal digit of a number below sixteen.
pub open spec fn hex_digit(n: int) -> char {
    if n < 10 {
        ('0' as int + n) as char
    } else {
        ('a' as int + n - 10) as char
    }
}

/// A number in hexadecimal, without leading zeros.
pub open spec fn hex_text(n: nat) -> Seq<char>
    decreases n,
{
    if n < 16 {
        seq![hex_digit(n as int)]
    } else {
        hex_text(n / 16).push(hex_digit((n % 16) as int))
    }
}

fn hex_digit_text(n: u32) -> (text: &'static str)
    requires
        n < 16,
    ensures
        text@ == seq![hex_digit(n as int)],
{
    proof {
        reveal_strlit("0");
        reveal_strlit("1");
        reveal_strlit("2");
        reveal_strlit("3");
        reveal_strlit("4");
        reveal_strlit("5");
        reveal_strlit("6");
        reveal_strlit("7");
        reveal_strlit("8");
        reveal_strlit("9");
        reveal_strlit("a");
        reveal_strlit("b");
        reveal_strlit("c");
        reveal_strlit("d");
        reveal_strlit("e");
        reveal_strlit("f");
    }
    match n {
        0 => "0",
        1 => "1",
        2 => "2",
        3 => "3",
        4 => "4",
        5 => "5",
        6 => "6",
        7 => "7",
        8 => "8",
        9 => "9",
        10 => "a",
        11 => "b",
        12 => "c",
        13 => "d",
        14 => "e",
        _ => "f",
    }
}

fn to_hex(n: u32) -> (text: String)
    ensures
        text@ == hex_text(n as nat),
    decreases n,
{
    if n < 16 {
        hex_digit_text(n).to_owned()
    } else {
        let mut text = to_hex(n / 16);
        text.append(hex_digit_text(n % 16));
        assert(text@ =~= hex_text(n as nat));
        text
    }
}

impl InputError {
    /// The text of the error.
    pub open spec fn text(&self) -> Seq<char> {
        match *self {
            InputError::QueueOverflow => "Linux hotkey event queue overflow"@,
            InputError::UnsupportedFunctionKey { key } => "unsupported X11 function key: "@ + key@,
            InputError::UnsupportedKey { key } => "unsupported X11 hotkey key: "@ + key@,
            InputError::MissingKeysym { keysym } => "active X11 keymap has no key for keysym 0x"@
                + hex_text(keysym as nat),
            InputError::UnmappedModifier =>
                "active X11 keymap does not map the requested modifier"@,
            InputError::RegistrationTimedOut =>
                "timed out registering the Linux dictation shortcut"@,
        }
    }

    /// The error as a message for the user.
    pub fn message(&self) -> (message: String)
        ensures
            message@ == self.text(),
    {
        match self {
            InputError::QueueOverflow => "Linux hotkey event queue overflow".to_owned(),
            InputError::UnsupportedFunctionKey { key } => {
                let mut text = "unsupported X11 function key: ".to_owned();
                text.append(key.as_str());
                text
            },
            InputError::UnsupportedKey { key } => {
                let mut text = "unsupported X11 hotkey key: ".to_owned();
                text.append(key.as_str());
                text
            },
            InputError::MissingKeysym { keysym } => {
                let mut text = "active X11 keymap has no key for keysym 0x".to_owned();
                let digits = to_hex(*keysym);
                text.append(digits.as_str());
                text
            },
            InputError::UnmappedModifier => {
                "active X11 keymap does not map the requested modifier".to_owned()
            },
            InputError::RegistrationTimedOut => {
                "timed out registering the Linux dictation shortcut".to_owned()
            },
        }
    }
}

/// What the worker was about when an outside error stopped it.
#[derive(Debug)]
pub enum Context {
    /// Connecting to the server.
    Connecting,
    /// Grabbing the trigger of the shortcut with this label.
    GrabbingTrigger { label: String },
    /// Grabbing Escape.
    GrabbingEscape,
}

impl Context {
    /// The text that goes before the outside error.
    pub open spec fn text(&self) -> Seq<char> {
        match *self {
            Context::Connecting => "could not connect to X11"@,
            Context::GrabbingTrigger { label } => label@
                + " is already in use by another X11 client"@,
            Context::GrabbingEscape => "could not grab the Escape key for cancel"@,
        }
    }

    /// The context as a message for the user.
    pub fn message(&self) -> (message: String)
        ensures
            message@ == self.text(),
    {
        match self {
            Context::Connecting => "could not connect to X11".to_owned(),
            Context::GrabbingTrigger { label } => {
                let mut text = label.clone();
                text.append(" is already in use by another X11 client");
                text
            },
            Context::GrabbingEscape => "could not grab the Escape key for cancel".to_owned(),
        }
    }
}

/// The value of a hexadecimal digit in small letters; none for any other
/// character.
pub open spec fn digit_value(c: char) -> Option<int> {
    if '0' <= c <= '9' {
        Some(c as int - 48)
    } else if 'a' <= c <= 'f' {
        Some(c as int - 87)
    } else {
        None
    }
}

/// The number that hexadecimal digits stand for.
pub open spec fn hex_value(digits: Seq<char>) -> int
    decreases digits.len(),
{
    if digits.len() == 0 {
        0
    } else {
        16 * hex_value(digits.drop_last()) + digit_value(digits.last())->0
    }
}

/// Whether a text is a number in hexadecimal, in small letters and as short as
/// can be.
pub open spec fn is_hex_of(digits: Seq<char>, n: int) -> bool {
    &&& digits.len() > 0
    &&& forall|i: int| 0 <= i < digits.len() ==> digit_value(#[trigger] digits[i]) is Some
    &&& hex_value(digits) == n
    &&& digits[0] == '0' ==> digits.len() == 1
}

proof fn lemma_hex_text(n: nat)
    ensures
        is_hex_of(hex_text(n), n as int),
        n > 0 ==> hex_text(n)[0] != '0',
    decreases n,
{
    if n < 16 {
        assert(hex_text(n).drop_last() =~= Seq::<char>::empty());
        assert(hex_value(hex_text(n).drop_last()) == 0);
        assert(hex_text(n).last() == hex_digit(n as int));
    } else {
        lemma_hex_text(n / 16);
        assert(hex_text(n).drop_last() =~= hex_text(n / 16));
        assert(hex_text(n).last() == hex_digit((n % 16) as int));
    }
}

/// What an error of each kind tells the user: the name as it was given, the
/// keysym in hexadecimal.
pub proof fn law_errors_name_what_is_wrong(error: InputError, message: String)
    requires
        call_ensures(InputError::message, (&error,), message),
    ensures
        match error {
            InputError::QueueOverflow => message@ == "Linux hotkey event queue overflow"@,
            InputError::UnsupportedFunctionKey { key } => message@
                == "unsupported X11 function key: "@ + key@,
            InputError::UnsupportedKey { key } => message@ == "unsupported X11 hotkey key: "@
                + key@,
            InputError::MissingKeysym { keysym } => exists|digits: Seq<char>|
                #![trigger is_hex_of(digits, keysym as int)]
                is_hex_of(digits, keysym as int) && message@
                    == "active X11 keymap has no key for keysym 0x"@ + digits,
            InputError::UnmappedModifier => message@
                == "active X11 keymap does not map the requested modifier"@,
            InputError::RegistrationTimedOut => message@
                == "timed out registering the Linux dictation shortcut"@,
        },
{
    if let InputError::MissingKeysym { keysym } = error {
        lemma_hex_text(keysym as nat);
        assert(is_hex_of(hex_text(keysym as nat), keysym as int));
    }
}

/// What goes before an outside error: the label as it was given.
pub proof fn law_contexts_name_what_was_tried(context: Context, message: String)
    requires
        call_ensures(Context::message, (&context,), message),
    ensures
        match context {
            Context::Connecting => message@ == "could not connect to X11"@,
            Context::GrabbingTrigger { label } => message@ == label@
                + " is already in use by another X11 client"@,
            Context::GrabbingEscape => message@ == "could not grab the Escape key for cancel"@,
        },
{
}

} // verus!
