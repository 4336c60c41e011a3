//! What log lines spell.

use crate::text::{decimal, AccessInfo, LogRecord, OptFmt};
use vstd::prelude::*;

verus! {

/// The number that a text of decimal digits spells.
pub open spec fn number_spelled(digits: Seq<char>) -> int
    decreases digits.len(),
{
    if digits.len() == 0 {
        0
    } else {
        10 * number_spelled(digits.drop_last()) + (digits.last() as int - '0' as int)
    }
}

/// Whether a text is made of the parts, one after the other, and nothing else.
pub open spec fn spells(text: Seq<char>, parts: Seq<Seq<char>>) -> bool
    decreases parts.len(),
{
    if parts.len() == 0 {
        text.len() == 0
    } else {
        let part = parts.last();
        &&& part.len() <= text.len()
        &&& text.skip(text.len() - part.len()) == part
        &&& spells(text.take(text.len() - part.len()), parts.drop_last())
    }
}

proof fn lemma_spells_push(text: Seq<char>, parts: Seq<Seq<char>>, part: Seq<char>)
    requires
        spells(text, parts),
    ensures
        spells(text + part, parts.push(part)),
{
    let whole = text + part;
    assert(parts.push(part).drop_last() =~= parts);
    assert(whole.skip(whole.len() - part.len()) =~= part);
    assert(whole.take(whole.len() - part.len()) =~= text);
}

/// A number is printed by digits that spell it, without leading zeros.
pub proof fn law_digits_spell_the_number(n: nat)
    ensures
        number_spelled(decimal(n)) == n,
        decimal(n).len() > 0,
        decimal(n).len() > 1 ==> decimal(n)[0] != '0',
        forall|i: int| 0 <= i < decimal(n).len() ==> '0' <= #[trigger] decimal(n)[i] <= '9',
        n > 0 ==> decimal(n)[0] != '0',
    decreases n,
{
    reveal_with_fuel(number_spelled, 2);
    if n < 10 {
        assert(decimal(n).drop_last() =~= seq![]);
    } else {
        law_digits_spell_the_number(n / 10);
        assert(decimal(n).drop_last() =~= decimal(n / 10));
        assert(decimal(n)[0] == decimal(n / 10)[0]);
        assert forall|i: int| 0 <= i < decimal(n).len() implies '0' <= #[trigger] decimal(n)[i]
            <= '9' by {
            if i < decimal(n).len() - 1 {
                assert(decimal(n)[i] == decimal(n / 10)[i]);
            }
        }
    }
}

/// An optional value prints as itself, and as a dash where it is missing.
pub proof fn law_missing_values_are_dashes(value: OptFmt)
    ensures
        value.0 matches Some(text) ==> value.text() == text@,
        value.0 is None ==> value.text() == seq!['-'],
{
    reveal_strlit("-");
    assert("-"@ =~= seq!['-']);
}

/// The line of a request spells what is told of it, in this order and with these separators.
pub proof fn law_access_line(info: AccessInfo)
    ensures
        spells(
            info.line(),
            seq![
                info.remote_addr.text(),
                " \""@,
                info.method@,
                " "@,
                info.path@,
                " "@,
                info.version@,
                "\" "@,
                decimal(info.status as nat),
                " \""@,
                info.referer.text(),
                "\" \""@,
                info.user_agent.text(),
                "\" "@,
                info.elapsed@,
            ],
        ),
{
    let parts = seq![
        info.remote_addr.text(),
        " \""@,
        info.method@,
        " "@,
        info.path@,
        " "@,
        info.version@,
        "\" "@,
        decimal(info.status as nat),
        " \""@,
        info.referer.text(),
        "\" \""@,
        info.user_agent.text(),
        "\" "@,
        info.elapsed@,
    ];
    lemma_concat_spells(parts);
    reveal_with_fuel(concat, 16);
    lemma_take_all(parts);
    assert(concat(parts, 15) =~= info.line());
}

/// The line of a record spells what is told of it, in this order and with these separators; a
/// missing file is called unnamed, and a missing line number is zero.
pub proof fn law_log_line(record: LogRecord)
    ensures
        ({
            let file = match record.file {
                Some(file) => file@,
                None => "<unnamed>"@,
            };
            let line = match record.line {
                Some(line) => decimal(line as nat),
                None => seq!['0'],
            };
            spells(
                record.text(),
                seq![
                    "["@,
                    record.now@,
                    "] "@,
                    record.level@,
                    " ["@,
                    record.target@,
                    "] "@,
                    file,
                    ":"@,
                    line,
                    ": "@,
                    record.args@,
                ],
            )
        }),
{
    let file = match record.file {
        Some(file) => file@,
        None => "<unnamed>"@,
    };
    let line = match record.line {
        Some(line) => decimal(line as nat),
        None => seq!['0'],
    };
    assert(decimal(0) =~= seq!['0']);
    let parts = seq![
        "["@,
        record.now@,
        "] "@,
        record.level@,
        " ["@,
        record.target@,
        "] "@,
        file,
        ":"@,
        line,
        ": "@,
        record.args@,
    ];
    lemma_concat_spells(parts);
    reveal_with_fuel(concat, 13);
    lemma_take_all(parts);
    assert(concat(parts, 12) =~= record.text());
}

/// The first `n` parts, put together.
spec fn concat(parts: Seq<Seq<char>>, n: nat) -> Seq<char>
    decreases n,
{
    if n == 0 {
        seq![]
    } else {
        concat(parts, (n - 1) as nat) + parts[n - 1]
    }
}

proof fn lemma_take_all(parts: Seq<Seq<char>>)
    ensures
        parts.take(parts.len() as int) == parts,
{
    assert(parts.take(parts.len() as int) =~= parts);
}

proof fn lemma_concat_spells_prefix(parts: Seq<Seq<char>>, n: nat)
    requires
        n <= parts.len(),
    ensures
        spells(concat(parts, n), parts.take(n as int)),
    decreases n,
{
    if n > 0 {
        lemma_concat_spells_prefix(parts, (n - 1) as nat);
        lemma_spells_push(
            concat(parts, (n - 1) as nat),
            parts.take(n - 1),
            parts[n - 1],
        );
        assert(parts.take(n - 1).push(parts[n - 1]) =~= parts.take(n as int));
    }
}

proof fn lemma_concat_spells(parts: Seq<Seq<char>>)
    ensures
        spells(concat(parts, parts.len()), parts),
{
    lemma_concat_spells_prefix(parts, parts.len());
    lemma_take_all(parts);
}

} // verus!
