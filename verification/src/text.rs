//! The lines that the monitor writes to its logs.

use vstd::prelude::*;
use vstd::string::*;

verus! {

/// The character for a decimal digit.
pub open spec fn digit_char(d: nat) -> char {
    ('0' as int + d) as char
}

/// The decimal digits of `n`, without leading zeros.
pub open spec fn decimal(n: nat) -> Seq<char>
    decreases n,
{
    if n < 10 {
        seq![digit_char(n)]
    } else {
        decimal(n / 10).push(digit_char(n % 10))
    }
}

fn digit(d: u64) -> (r: &'static str)
    requires
        d < 10,
    ensures
        r@ == seq![digit_char(d as nat)],
{
    proof {
        reveal_strlit("0");
        reveal_strlit("1");
        reveal_strlit("2");
        reveal_strlit("3");
        reveal_strlit("4");
        reveal_strlit("5");
        reveal_strlit("6");
        reveal_strlit("7");
        reveal_strlit("8");
        reveal_strlit("9");
    }
    match d {
        0 => "0",
        1 => "1",
        2 => "2",
        3 => "3",
        4 => "4",
        5 => "5",
        6 => "6",
        7 => "7",
        8 => "8",
        _ => "9",
    }
}

/// Appends the decimal digits of `n` to `line`.
pub fn append_decimal(line: &mut String, n: u64)
    ensures
        final(line)@ == old(line)@ + decimal(n as nat),
    decreases n,
{
    if n >= 10 {
        append_decimal(line, n / 10);
    }
    line.append(digit(n % 10));
    proof {
        assert(line@ =~= old(line)@ + decimal(n as nat));
    }
}

/// Wrapper to pretty-print optional values, which it takes as they print.
pub struct OptFmt(pub Option<String>);

impl OptFmt {
    /// The value where there is one, a dash otherwise.
    pub open spec fn text(self) -> Seq<char> {
        match self.0 {
            Some(t) => t@,
            None => "-"@,
        }
    }

    /// Prints the value where there is one, a dash otherwise.
    pub fn fmt(&self) -> (r: String)
        ensures
            r@ == self.text(),
    {
        match &self.0 {
            Some(t) => t.clone(),
            None => "-".to_owned(),
        }
    }
}

/// What the access log tells of a request and its answer.
///
/// The address, the method, the version and the elapsed time are held as they print.
pub struct AccessInfo {
    pub remote_addr: OptFmt,
    pub method: String,
    pub path: String,
    pub version: String,
    pub status: u16,
    pub referer: OptFmt,
    pub user_agent: OptFmt,
    pub elapsed: String,
}

impl AccessInfo {
    /// The access log line of a request:
    /// `address "method path version" status "referer" "user agent" elapsed`.
    pub open spec fn line(self) -> Seq<char> {
        self.remote_addr.text() + " \""@ + self.method@ + " "@ + self.path@ + " "@ + self.version@
            + "\" "@ + decimal(self.status as nat) + " \""@ + self.referer.text() + "\" \""@
            + self.user_agent.text() + "\" "@ + self.elapsed@
    }

    /// Prints the access log line of a request.
    pub fn to_line(&self) -> (r: String)
        ensures
            r@ == self.line(),
    {
        let mut line = self.remote_addr.fmt();
        line.append(" \"");
        line.append(self.method.as_str());
        line.append(" ");
        line.append(self.path.as_str());
        line.append(" ");
        line.append(self.version.as_str());
        line.append("\" ");
        append_decimal(&mut line, self.status as u64);
        line.append(" \"");
        line.append(self.referer.fmt().as_str());
        line.append("\" \"");
        line.append(self.user_agent.fmt().as_str());
        line.append("\" ");
        line.append(self.elapsed.as_str());
        line
    }
}

/// What the log tells of a record.
///
/// The time, the level and the message are held as they print.
pub struct LogRecord {
    pub now: String,
    pub level: String,
    pub target: String,
    pub file: Option<String>,
    pub line: Option<u32>,
    pub args: String,
}

impl LogRecord {
    /// The file that the record names, or the text that stands for none.
    pub open spec fn file_text(self) -> Seq<char> {
        match self.file {
            Some(file) => file@,
            None => "<unnamed>"@,
        }
    }

    /// The line that the record names, or zero.
    pub open spec fn line_number(self) -> nat {
        match self.line {
            Some(line) => line as nat,
            None => 0,
        }
    }

    /// The log line of a record: `[time] level [target] file:line: message`.
    pub open spec fn text(self) -> Seq<char> {
        "["@ + self.now@ + "] "@ + self.level@ + " ["@ + self.target@ + "] "@ + self.file_text()
            + ":"@ + decimal(self.line_number()) + ": "@ + self.args@
    }
}

/// Prints the log line of a record.
pub fn log_format(record: &LogRecord) -> (r: String)
    ensures
        r@ == record.text(),
{
    let mut text = "[".to_owned();
    text.append(record.now.as_str());
    text.append("] ");
    text.append(record.level.as_str());
    text.append(" [");
    text.append(record.target.as_str());
    text.append("] ");
    match &record.file {
        Some(file) => text.append(file.as_str()),
        None => text.append("<unnamed>"),
    }
    text.append(":");
    match record.line {
        Some(line) => append_decimal(&mut text, line as u64),
        None => append_decimal(&mut text, 0),
    }
    text.append(": ");
    text.append(record.args.as_str());
    text
}

} // verus!
