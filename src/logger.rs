use vstd::prelude::*;

verus! {

/// Longest message, in characters, that the logging bridge passes on whole.
pub const LOG_LIMIT: usize = 2000;

/// The first argument of a logging call, as the adapter hands it over.
#[derive(Debug, Clone, PartialEq, Eq)]
pub enum LogArg {
    /// A string argument.
    Text(String),
    /// A structured argument, with its stringified form.
    Structured(String),
    /// An argument that could not be stringified.
    Unprintable,
}

/// A message cut to `LOG_LIMIT` characters, with `...` appended, when it is
/// longer than that.
pub open spec fn truncated(s: Seq<char>) -> Seq<char> {
    if s.len() > LOG_LIMIT {
        s.take(LOG_LIMIT as int) + "..."@
    } else {
        s
    }
}

/// The message logged for a call with arguments `args`, if any.
pub open spec fn logger_msg_spec(args: Seq<LogArg>) -> Option<Seq<char>> {
    if args.len() == 0 {
        None
    } else {
        match args[0] {
            LogArg::Text(s) => Some(truncated(s@)),
            LogArg::Structured(s) => Some(truncated(s@)),
            LogArg::Unprintable => None,
        }
    }
}

/// Applies the length limit to a log message.
pub fn truncate_message(s: &str) -> (r: String)
    ensures
        r@ == truncated(s@),
{
    let n = s.unicode_len();
    if n > LOG_LIMIT {
        let head = String::from_str(s.substring_char(0, LOG_LIMIT));
        head.concat("...")
    } else {
        String::from_str(s)
    }
}

/// The message a logging call emits: its first argument, as text, under
/// the length limit; nothing when there is no argument or it cannot be
/// printed.
pub fn get_logger_msg(args: &[LogArg]) -> (r: Option<String>)
    ensures
        match r {
            Some(m) => logger_msg_spec(args@) == Some(m@),
            None => logger_msg_spec(args@) is None,
        },
{
    if args.len() == 0 {
        None
    } else {
        match &args[0] {
            LogArg::Text(s) => Some(truncate_message(s.as_str())),
            LogArg::Structured(s) => Some(truncate_message(s.as_str())),
            LogArg::Unprintable => None,
        }
    }
}

} // verus!
