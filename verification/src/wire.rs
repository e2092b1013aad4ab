//! Commands in the form that the backend's client sends: built here, word by
//! word, and handed to the caller, who sends them.

use vstd::prelude::*;
use vstd::utf8::encode_utf8;
use crate::backend::Command;
use crate::text::{decimal_text, push_radix};

verus! {

/// One backend command of the `redis` client: a name and its arguments.
#[verifier::external_type_specification]
#[verifier::external_body]
pub struct ExCmd(redis::Cmd);

/// A batch of commands of the `redis` client, sent in one go.
#[verifier::external_type_specification]
#[verifier::external_body]
pub struct ExPipeline(redis::Pipeline);

/// The words that a command of the client holds: its name first, then its
/// arguments, each as the bytes that go over the wire.
pub uninterp spec fn cmd_args(cmd: redis::Cmd) -> Seq<Seq<u8>>;

/// The commands that a batch of the client holds, in the order in which
/// they were added and will be sent; each by its words.
pub uninterp spec fn pipeline_commands(pipeline: redis::Pipeline) -> Seq<Seq<Seq<u8>>>;

/// `redis::cmd`: a command that holds one word, the bytes of `name`.
#[verifier::external_body]
fn cmd_new(name: &str) -> (cmd: redis::Cmd)
    ensures
        cmd_args(cmd) == seq![encode_utf8(name@)],
{
    redis::cmd(name)
}

/// `redis::Cmd::arg` with a string: the bytes of `arg` become one more word
/// at the end of the command.
#[verifier::external_body]
fn cmd_arg(cmd: &mut redis::Cmd, arg: &str)
    ensures
        cmd_args(*final(cmd)) == cmd_args(*old(cmd)).push(encode_utf8(arg@)),
{
    cmd.arg(arg);
}

/// `redis::Pipeline::new`: a batch that holds no command.
#[verifier::external_body]
pub(crate) fn pipeline_new() -> (pipeline: redis::Pipeline)
    ensures
        pipeline_commands(pipeline) == Seq::<Seq<Seq<u8>>>::empty(),
{
    redis::Pipeline::new()
}

/// `redis::Pipeline::add_command`: `cmd` becomes the last command of the
/// batch; the commands before it stay.
#[verifier::external_body]
pub(crate) fn pipeline_add(pipeline: &mut redis::Pipeline, cmd: redis::Cmd)
    ensures
        pipeline_commands(*final(pipeline)) == pipeline_commands(*old(pipeline)).push(
            cmd_args(cmd),
        ),
{
    pipeline.add_command(cmd);
}

/// `redis::Pipeline::clear`: the batch holds no command afterwards.
#[verifier::external_body]
pub(crate) fn pipeline_clear(pipeline: &mut redis::Pipeline)
    ensures
        pipeline_commands(*final(pipeline)) == Seq::<Seq<Seq<u8>>>::empty(),
{
    pipeline.clear();
}

/// `SET key value`.
pub fn set_command(key: &str, value: &str) -> (cmd: redis::Cmd)
    ensures
        cmd_args(cmd) == (Command::Store { key: key@, value: value@ }).args(),
{
    proof {
        reveal_strlit("SET");
        assert("SET"@ =~= seq!['S', 'E', 'T']);
    }
    let mut cmd = cmd_new("SET");
    cmd_arg(&mut cmd, key);
    cmd_arg(&mut cmd, value);
    assert(cmd_args(cmd) =~= (Command::Store { key: key@, value: value@ }).args());
    cmd
}

/// `SADD key member`, the member being a number in decimal.
pub fn sadd_command(key: &str, member: u64) -> (cmd: redis::Cmd)
    ensures
        cmd_args(cmd) == (Command::AddMember { key: key@, member: decimal_text(member as nat) }).args(),
{
    proof {
        reveal_strlit("SADD");
        assert("SADD"@ =~= seq!['S', 'A', 'D', 'D']);
    }
    let mut text = String::new();
    push_radix(&mut text, member, false);
    assert(text@ =~= decimal_text(member as nat));
    let mut cmd = cmd_new("SADD");
    cmd_arg(&mut cmd, key);
    cmd_arg(&mut cmd, text.as_str());
    assert(cmd_args(cmd) =~= (Command::AddMember {
        key: key@,
        member: decimal_text(member as nat),
    }).args());
    cmd
}

/// `DEL key`.
pub fn del_command(key: &str) -> (cmd: redis::Cmd)
    ensures
        cmd_args(cmd) == (Command::Delete { key: key@ }).args(),
{
    proof {
        reveal_strlit("DEL");
        assert("DEL"@ =~= seq!['D', 'E', 'L']);
    }
    let mut cmd = cmd_new("DEL");
    cmd_arg(&mut cmd, key);
    assert(cmd_args(cmd) =~= (Command::Delete { key: key@ }).args());
    cmd
}

/// `SREM key member`, the member being a number in decimal.
pub fn srem_command(key: &str, member: u64) -> (cmd: redis::Cmd)
    ensures
        cmd_args(cmd) == (Command::RemoveMember { key: key@, member: decimal_text(member as nat) }).args(),
{
    proof {
        reveal_strlit("SREM");
        assert("SREM"@ =~= seq!['S', 'R', 'E', 'M']);
    }
    let mut text = String::new();
    push_radix(&mut text, member, false);
    assert(text@ =~= decimal_text(member as nat));
    let mut cmd = cmd_new("SREM");
    cmd_arg(&mut cmd, key);
    cmd_arg(&mut cmd, text.as_str());
    assert(cmd_args(cmd) =~= (Command::RemoveMember {
        key: key@,
        member: decimal_text(member as nat),
    }).args());
    cmd
}

/// `GET key`.
pub fn get_command(key: &str) -> (cmd: redis::Cmd)
    ensures
        cmd_args(cmd) == (Command::Fetch { key: key@ }).args(),
{
    proof {
        reveal_strlit("GET");
        assert("GET"@ =~= seq!['G', 'E', 'T']);
    }
    let mut cmd = cmd_new("GET");
    cmd_arg(&mut cmd, key);
    assert(cmd_args(cmd) =~= (Command::Fetch { key: key@ }).args());
    cmd
}

/// `KEYS pattern`.
pub fn keys_command(pattern: &str) -> (cmd: redis::Cmd)
    ensures
        cmd_args(cmd) == (Command::ListKeys { pattern: pattern@ }).args(),
{
    proof {
        reveal_strlit("KEYS");
        assert("KEYS"@ =~= seq!['K', 'E', 'Y', 'S']);
    }
    let mut cmd = cmd_new("KEYS");
    cmd_arg(&mut cmd, pattern);
    assert(cmd_args(cmd) =~= (Command::ListKeys { pattern: pattern@ }).args());
    cmd
}

/// The texts that the strings of `keys` hold.
pub open spec fn texts(keys: Seq<String>) -> Seq<Seq<char>> {
    keys.map_values(|k: String| k@)
}

/// `SINTER key key ...`, with the keys in the order given.
pub fn sinter_command(keys: &Vec<String>) -> (cmd: redis::Cmd)
    ensures
        cmd_args(cmd) == (Command::Intersect { keys: texts(keys@) }).args(),
{
    proof {
        reveal_strlit("SINTER");
        assert("SINTER"@ =~= seq!['S', 'I', 'N', 'T', 'E', 'R']);
    }
    let mut cmd = cmd_new("SINTER");
    let mut i: usize = 0;
    let ghost head = seq![encode_utf8(seq!['S', 'I', 'N', 'T', 'E', 'R'])];
    assert(texts(keys@).subrange(0, 0).map_values(|k: Seq<char>| encode_utf8(k)) =~= Seq::<
        Seq<u8>,
    >::empty());
    while i < keys.len()
        invariant
            i <= keys.len(),
            head == seq![encode_utf8(seq!['S', 'I', 'N', 'T', 'E', 'R'])],
            cmd_args(cmd) == head + texts(keys@).subrange(0, i as int).map_values(
                |k: Seq<char>| encode_utf8(k),
            ),
        decreases keys.len() - i,
    {
        cmd_arg(&mut cmd, keys[i].as_str());
        proof {
            let done = texts(keys@).subrange(0, i as int);
            let more = texts(keys@).subrange(0, i as int + 1);
            assert(more =~= done.push(keys[i as int]@));
            assert(more.map_values(|k: Seq<char>| encode_utf8(k)) =~= done.map_values(
                |k: Seq<char>| encode_utf8(k),
            ).push(encode_utf8(keys[i as int]@)));
            assert((head + done.map_values(|k: Seq<char>| encode_utf8(k))).push(
                encode_utf8(keys[i as int]@),
            ) =~= head + more.map_values(|k: Seq<char>| encode_utf8(k)));
        }
        i = i + 1;
    }
    assert(texts(keys@).subrange(0, i as int) =~= texts(keys@));
    cmd
}

} // verus!
