//! A plain command builder, which writes names as they are given: no
//! quoting of user names and passwords, and no escaping inside quotes.

use vstd::prelude::*;
use vstd::utf8::encode_utf8;
use crate::builders::command::{push_text, text_vec, Command, FetchCommandEmpty};
use crate::types::State;

verus! {

/// Builds commands from names as they are given.
pub struct CommandBuilder {}

impl CommandBuilder {
    pub fn check() -> (r: Command)
        ensures
            r@ == (encode_utf8("CHECK"@), None::<State>),
    {
        Command::from_parts(text_vec("CHECK"), None)
    }

    pub fn close() -> (r: Command)
        ensures
            r@ == (encode_utf8("CLOSE"@), Some(State::Authenticated)),
    {
        Command::from_parts(text_vec("CLOSE"), Some(State::Authenticated))
    }

    /// EXAMINE and the mailbox in quotes.
    pub fn examine(mailbox: &str) -> (r: Command)
        ensures
            r@ == (
                encode_utf8("EXAMINE \""@) + encode_utf8(mailbox@) + encode_utf8("\""@),
                Some(State::Selected),
            ),
    {
        let mut args = text_vec("EXAMINE \"");
        push_text(&mut args, mailbox);
        push_text(&mut args, "\"");
        Command::from_parts(args, Some(State::Selected))
    }

    pub fn fetch() -> (r: FetchCommandEmpty)
        ensures
            r@ == encode_utf8("FETCH "@),
    {
        crate::builders::command::CommandBuilder::fetch()
    }

    /// LIST and the reference and the pattern, each in quotes.
    pub fn list(reference: &str, glob: &str) -> (r: Command)
        ensures
            r@ == (
                encode_utf8("LIST \""@) + encode_utf8(reference@) + encode_utf8("\" \""@)
                    + encode_utf8(glob@) + encode_utf8("\""@),
                None::<State>,
            ),
    {
        let mut args = text_vec("LIST \"");
        push_text(&mut args, reference);
        push_text(&mut args, "\" \"");
        push_text(&mut args, glob);
        push_text(&mut args, "\"");
        Command::from_parts(args, None)
    }

    /// LOGIN, the user name and the password, separated by spaces.
    pub fn login(user_name: &str, password: &str) -> (r: Command)
        ensures
            r@ == (
                encode_utf8("LOGIN "@) + encode_utf8(user_name@) + seq![0x20u8] + encode_utf8(
                    password@,
                ),
                Some(State::Authenticated),
            ),
    {
        let mut args = text_vec("LOGIN ");
        push_text(&mut args, user_name);
        args.push(0x20);
        push_text(&mut args, password);
        Command::from_parts(args, Some(State::Authenticated))
    }

    /// SELECT and the mailbox in quotes.
    pub fn select(mailbox: &str) -> (r: Command)
        ensures
            r@ == (
                encode_utf8("SELECT \""@) + encode_utf8(mailbox@) + encode_utf8("\""@),
                Some(State::Selected),
            ),
    {
        let mut args = text_vec("SELECT \"");
        push_text(&mut args, mailbox);
        push_text(&mut args, "\"");
        Command::from_parts(args, Some(State::Selected))
    }

    pub fn uid_fetch() -> (r: FetchCommandEmpty)
        ensures
            r@ == encode_utf8("UID FETCH "@),
    {
        crate::builders::command::CommandBuilder::uid_fetch()
    }
}

} // verus!
