//! The texts the bot and the runtime print: log prefixes, command replies and
//! log lines.

use vstd::prelude::*;
use vstd::string::StringExecFns;

verus! {

/// The character of a decimal digit.
pub open spec fn digit_char(d: nat) -> char {
    seq!['0', '1', '2', '3', '4', '5', '6', '7', '8', '9'][d as int]
}

/// The decimal numeral of `n`, without leading zeros.
pub open spec fn decimal(n: nat) -> Seq<char>
    decreases n,
{
    if n < 10 {
        seq![digit_char(n)]
    } else {
        decimal(n / 10).push(digit_char(n % 10))
    }
}

/// The one-character text of a decimal digit.
fn digit_text(d: u32) -> (s: &'static str)
    requires
        d < 10,
    ensures
        s@ == seq![digit_char(d as nat)],
{
    proof {
        reveal_strlit("0");
        reveal_strlit("1");
        reveal_strlit("2");
        reveal_strlit("3");
        reveal_strlit("4");
        reveal_strlit("5");
        reveal_strlit("6");
        reveal_strlit("7");
        reveal_strlit("8");
        reveal_strlit("9");
    }
    let s = if d == 0 {
        "0"
    } else if d == 1 {
        "1"
    } else if d == 2 {
        "2"
    } else if d == 3 {
        "3"
    } else if d == 4 {
        "4"
    } else if d == 5 {
        "5"
    } else if d == 6 {
        "6"
    } else if d == 7 {
        "7"
    } else if d == 8 {
        "8"
    } else {
        "9"
    };
    assert(s@ =~= seq![digit_char(d as nat)]);
    s
}

/// The decimal numeral of `n`, as `{}` prints it.
pub fn decimal_string(n: u32) -> (s: String)
    ensures
        s@ == decimal(n as nat),
    decreases n,
{
    if n < 10 {
        String::from_str(digit_text(n))
    } else {
        let mut s = decimal_string(n / 10);
        s.append(digit_text(n % 10));
        s
    }
}

/// The log prefix of the bot process with the given id.
pub fn bot_log_prefix(pid: u32) -> (s: String)
    ensures
        s@ == "SkiddoBot (PID "@ + decimal(pid as nat) + "):"@,
{
    let mut s = String::from_str("SkiddoBot (PID ");
    s.append(decimal_string(pid).as_str());
    s.append("):");
    s
}

/// The log prefix of the manager process with the given id.
pub fn manager_log_prefix(pid: u32) -> (s: String)
    ensures
        s@ == "SkiddoManager (PID "@ + decimal(pid as nat) + "):"@,
{
    let mut s = String::from_str("SkiddoManager (PID ");
    s.append(decimal_string(pid).as_str());
    s.append("):");
    s
}

/// The log prefix of the worker process with the given id that runs `skiddo_file`.
pub fn instance_log_prefix(skiddo_file: &str, pid: u32) -> (s: String)
    ensures
        s@ == "Skiddo \""@ + skiddo_file@ + "\" (PID "@ + decimal(pid as nat) + "):"@,
{
    let mut s = String::from_str("Skiddo \"");
    s.append(skiddo_file);
    s.append("\" (PID ");
    s.append(decimal_string(pid).as_str());
    s.append("):");
    s
}

/// The bot's reply to an `eval` command: the code, quoted in a JavaScript block.
pub fn eval_command_reply(code: &str) -> (s: String)
    ensures
        s@ == "```js\nskiddo.eval(\""@ + code@ + "\")```"@,
{
    let mut s = String::from_str("```js\nskiddo.eval(\"");
    s.append(code);
    s.append("\")```");
    s
}

/// The bot's reply to a `spawn` command.
pub fn spawn_command_reply(skiddo_file: &str) -> (s: String)
    ensures
        s@ == "Booting up skiddo from Skiddo File "@ + skiddo_file@,
{
    let mut s = String::from_str("Booting up skiddo from Skiddo File ");
    s.append(skiddo_file);
    s
}

/// The line logged when the bot has connected, for the bot user's name.
pub fn ready_message(bot_name: &str) -> (s: String)
    ensures
        s@ == bot_name@ + " has started and connected to discord."@,
{
    let mut s = String::from_str(bot_name);
    s.append(" has started and connected to discord.");
    s
}

/// The line logged for a message from the JavaScript side.
pub fn js_log_line(msg: &str) -> (s: String)
    ensures
        s@ == "JS: "@ + msg@,
{
    let mut s = String::from_str("JS: ");
    s.append(msg);
    s
}

/// The decimal numeral of a number is made of digits only, and begins with a
/// zero only when it is the numeral of zero.
pub proof fn lemma_decimal_shape(n: nat)
    ensures
        decimal(n).len() >= 1,
        forall|i: int| 0 <= i < decimal(n).len() ==> '0' <= #[trigger] decimal(n)[i] <= '9',
        decimal(n)[0] == '0' ==> n == 0,
    decreases n,
{
    if n >= 10 {
        lemma_decimal_shape(n / 10);
        assert(decimal(n)[0] == decimal(n / 10)[0]);
    }
    assert forall|i: int| 0 <= i < decimal(n).len() implies '0' <= #[trigger] decimal(n)[i] <= '9' by {
        if n >= 10 && i < decimal(n).len() - 1 {
            assert(decimal(n)[i] == decimal(n / 10)[i]);
        }
    }
}

} // verus!
