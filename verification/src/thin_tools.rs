//! The tools that read and mend the metadata of a thin pool.

use vstd::prelude::*;
use vstd::string::*;

use crate::command::{given, Invocation, InvocationView};
use crate::error::{outcome, Error, ErrorView};
use crate::text::{
    dec, decimal, lemma_dec_is_word, lemma_dec_parsed, lemma_pieces_strung, lemma_words_strung,
    lines, lines_of, number_fault, parse_max, parsed, pieces, quoted, quoted_text, split_words,
    strung, texts, trim, trimmed, words,
};
use crate::vdo::{figure, read_figure};

verus! {

/// Asks how much metadata a pool needs.
pub open spec fn size_call(pool_size_bytes: u64, block_size_bytes: u64, max_thins: u64) -> InvocationView {
    InvocationView {
        program: "thin_metadata_size"@,
        args: seq![
            "--block-size"@,
            dec(block_size_bytes as nat),
            "--pool-size"@,
            dec(pool_size_bytes as nat),
            "--max-thins"@,
            dec(max_thins as nat),
            "--numeric-only"@,
            "--unit"@,
            "b"@,
        ],
        label: "thin_metadata_size"@,
        start_label: "thin_metadata_size"@,
    }
}

/// Asks how much metadata a pool needs, for [`parse_metadata_size`] to read.
pub fn metadata_size(pool_size_bytes: u64, block_size_bytes: u64, max_thins: u64) -> (r: Invocation)
    ensures
        r@ == size_call(pool_size_bytes, block_size_bytes, max_thins),
{
    let block = decimal(block_size_bytes);
    let pool = decimal(pool_size_bytes);
    let thins = decimal(max_thins);
    Invocation::new("thin_metadata_size", "thin_metadata_size").arg("--block-size").arg(
        block.as_str(),
    ).arg("--pool-size").arg(pool.as_str()).arg("--max-thins").arg(thins.as_str()).arg(
        "--numeric-only",
    ).arg("--unit").arg("b")
}

/// The number that a command wrote with white space around it, or the error
/// for what is no number.
pub open spec fn sole_number(command: Seq<char>, what: Seq<char>, stdout: Seq<char>) -> Result<
    u64,
    ErrorView,
> {
    match parsed(trimmed(stdout), u64::MAX as nat) {
        Some(n) => Ok(n as u64),
        None => Err(
            ErrorView::Command {
                command,
                exit_code: 0,
                stderr: "non-numeric "@ + what + " "@ + quoted_text(trimmed(stdout)) + ": "@
                    + number_fault(trimmed(stdout), u64::MAX as nat).text(),
            },
        ),
    }
}

/// Reads the number that a command wrote with white space around it.
pub fn parse_sole_number(command: &str, what: &str, stdout: &str) -> (r: Result<u64, Error>)
    ensures
        outcome(r) == sole_number(command@, what@, stdout@),
{
    let t = trim(stdout);
    match parse_max(t, u64::MAX) {
        Ok(n) => Ok(n),
        Err(f) => {
            let shown = quoted(t);
            let why = f.message();
            Err(
                Error::Command {
                    command: command.to_owned(),
                    exit_code: 0,
                    stderr: "non-numeric ".to_owned().concat(what).concat(" ").concat(
                        shown.as_str(),
                    ).concat(": ").concat(why.as_str()),
                },
            )
        },
    }
}

/// Reads how much metadata a pool needs.
pub fn parse_metadata_size(stdout: &str) -> (r: Result<u64, Error>)
    ensures
        outcome(r) == sole_number("thin_metadata_size"@, "output"@, stdout@),
{
    parse_sole_number("thin_metadata_size", "output", stdout)
}

/// Checks the metadata of a pool.
pub fn check(metadata_dev: &str) -> (r: Invocation)
    ensures
        r@ == (InvocationView {
            program: "thin_check"@,
            args: seq![metadata_dev@],
            label: "thin_check"@,
            start_label: "thin_check"@,
        }),
{
    Invocation::new("thin_check", "thin_check").arg(metadata_dev)
}

/// Mends the metadata of a pool.
pub open spec fn repair_call(input: Seq<char>, output: Seq<char>) -> InvocationView {
    InvocationView {
        program: "thin_repair"@,
        args: seq!["-i"@, input, "-o"@, output],
        label: "thin_repair"@,
        start_label: "thin_repair"@,
    }
}

/// Mends the metadata of a pool.
pub fn repair(input: &str, output: &str) -> (r: Invocation)
    ensures
        r@ == repair_call(input@, output@),
{
    Invocation::new("thin_repair", "thin_repair").arg("-i").arg(input).arg("-o").arg(output)
}

/// Writes the metadata of a pool out as text.
pub fn dump(metadata_dev: &str) -> (r: Invocation)
    ensures
        r@ == (InvocationView {
            program: "thin_dump"@,
            args: seq![metadata_dev@],
            label: "thin_dump"@,
            start_label: "thin_dump"@,
        }),
{
    Invocation::new("thin_dump", "thin_dump").arg(metadata_dev)
}

/// What a volume of a pool takes.
#[derive(Debug, PartialEq, Eq, Clone, Copy, Structural)]
pub struct ThinRow {
    pub dev_id: u64,
    pub mapped_bytes: u64,
    pub exclusive_bytes: u64,
}

/// Asks for the volumes of a pool.
pub open spec fn list_call(metadata_dev: Seq<char>) -> InvocationView {
    InvocationView {
        program: "thin_ls"@,
        args: seq![
            "-m"@,
            "--no-headers"@,
            "-o"@,
            "DEV,MAPPED_BYTES,EXCLUSIVE_BYTES"@,
            metadata_dev,
        ],
        label: "thin_ls"@,
        start_label: "thin_ls"@,
    }
}

/// Asks for the volumes of a pool, for [`parse_thin_ls`] to read.
pub fn list_thins(metadata_dev: &str) -> (r: Invocation)
    ensures
        r@ == list_call(metadata_dev@),
{
    Invocation::new("thin_ls", "thin_ls").arg("-m").arg("--no-headers").arg("-o").arg(
        "DEV,MAPPED_BYTES,EXCLUSIVE_BYTES",
    ).arg(metadata_dev)
}

/// Reads a figure of a row.
pub fn parse_field(s: &str, field: &str) -> (r: Result<u64, Error>)
    ensures
        outcome(r) == figure("thin_ls"@, field@, s@),
{
    read_figure("thin_ls", field, s)
}

/// What a line of the listing says.
pub open spec fn row_of_line(line: Seq<char>) -> Result<ThinRow, ErrorView> {
    let f = words(line);
    if f.len() != 3 {
        Err(
            ErrorView::Command {
                command: "thin_ls"@,
                exit_code: 0,
                stderr: "expected 3 fields per row, got "@ + dec(f.len()) + ": "@ + line,
            },
        )
    } else {
        match (
            figure("thin_ls"@, "DEV"@, f[0]),
            figure("thin_ls"@, "MAPPED_BYTES"@, f[1]),
            figure("thin_ls"@, "EXCLUSIVE_BYTES"@, f[2]),
        ) {
            (Err(e), _, _) => Err(e),
            (_, Err(e), _) => Err(e),
            (_, _, Err(e)) => Err(e),
            (Ok(dev_id), Ok(mapped_bytes), Ok(exclusive_bytes)) => Ok(
                ThinRow { dev_id, mapped_bytes, exclusive_bytes },
            ),
        }
    }
}

/// What the lines of the listing say: the rows, or the first error.
pub open spec fn rows_of_lines(l: Seq<Seq<char>>) -> Result<Seq<ThinRow>, ErrorView>
    decreases l.len(),
{
    if l.len() == 0 {
        Ok(seq![])
    } else {
        match rows_of_lines(l.drop_last()) {
            Err(e) => Err(e),
            Ok(rows) => if trimmed(l.last()).len() == 0 {
                Ok(rows)
            } else {
                match row_of_line(l.last()) {
                    Err(e) => Err(e),
                    Ok(row) => Ok(rows.push(row)),
                }
            },
        }
    }
}

proof fn lemma_first_error(l: Seq<Seq<char>>, k: int)
    requires
        0 <= k <= l.len(),
        rows_of_lines(l.take(k)) is Err,
    ensures
        rows_of_lines(l) == rows_of_lines(l.take(k)),
    decreases l.len() - k,
{
    if k < l.len() {
        assert(l.take(k + 1).drop_last() =~= l.take(k));
        lemma_first_error(l, k + 1);
    } else {
        assert(l.take(k) =~= l);
    }
}

fn parse_row(line: &str) -> (r: Result<ThinRow, Error>)
    ensures
        outcome(r) == row_of_line(line@),
{
    let f = split_words(line);
    assert(texts(f@).len() == f@.len());
    assert(forall|i: int| 0 <= i < f@.len() ==> texts(f@)[i] == #[trigger] f@[i]@);
    if f.len() != 3 {
        let n = decimal(f.len() as u64);
        return Err(
            Error::Command {
                command: "thin_ls".to_owned(),
                exit_code: 0,
                stderr: "expected 3 fields per row, got ".to_owned().concat(n.as_str()).concat(
                    ": ",
                ).concat(line),
            },
        );
    }
    let dev_id: u64 = match parse_field(f[0].as_str(), "DEV") {
        Ok(n) => n,
        Err(e) => {
            return Err(e);
        },
    };
    let mapped_bytes: u64 = match parse_field(f[1].as_str(), "MAPPED_BYTES") {
        Ok(n) => n,
        Err(e) => {
            return Err(e);
        },
    };
    let exclusive_bytes: u64 = match parse_field(f[2].as_str(), "EXCLUSIVE_BYTES") {
        Ok(n) => n,
        Err(e) => {
            return Err(e);
        },
    };
    Ok(ThinRow { dev_id, mapped_bytes, exclusive_bytes })
}

/// Reads the listing of the volumes of a pool.
pub fn parse_thin_ls(stdout: &str) -> (r: Result<Vec<ThinRow>, Error>)
    ensures
        match r {
            Ok(rows) => rows_of_lines(lines_of(stdout@)) == Ok::<Seq<ThinRow>, ErrorView>(rows@),
            Err(e) => rows_of_lines(lines_of(stdout@)) == Err::<Seq<ThinRow>, ErrorView>(e@),
        },
{
    let l = lines(stdout);
    let ghost all = lines_of(stdout@);
    let mut rows: Vec<ThinRow> = Vec::new();
    let mut i: usize = 0;
    while i < l.len()
        invariant
            i <= l.len(),
            texts(l@) == all,
            all == lines_of(stdout@),
            rows_of_lines(all.take(i as int)) == Ok::<Seq<ThinRow>, ErrorView>(rows@),
        decreases l.len() - i,
    {
        assert(all.take(i + 1).drop_last() =~= all.take(i as int));
        assert(all[i as int] == l@[i as int]@);
        let line = l[i].as_str();
        if !trim(line).is_empty() {
            match parse_row(line) {
                Ok(row) => {
                    rows.push(row);
                },
                Err(e) => {
                    proof {
                        lemma_first_error(all, i + 1);
                    }
                    return Err(e);
                },
            }
        }
        i = i + 1;
    }
    assert(all.take(i as int) =~= all);
    Ok(rows)
}

/// What the tool prints in the column of this name for a volume.
pub open spec fn cell(column: Seq<char>, row: ThinRow) -> Seq<char> {
    if column == "DEV"@ {
        dec(row.dev_id as nat)
    } else if column == "MAPPED_BYTES"@ {
        dec(row.mapped_bytes as nat)
    } else {
        dec(row.exclusive_bytes as nat)
    }
}

/// The line that the tool prints for a volume, with the columns that a call asks for.
pub open spec fn printed(call: InvocationView, row: ThinRow) -> Seq<char> {
    strung(pieces(call.args[3], ',').map_values(|c: Seq<char>| cell(c, row)), ' ')
}

/// What is read of a volume is what the tool has printed for it: the columns are read in
/// the order in which they are asked for, without headings.
pub proof fn law_columns_are_read_as_asked(dev: Seq<char>, row: ThinRow)
    ensures
        list_call(dev).program == "thin_ls"@,
        list_call(dev).args[2] == "-o"@ && list_call(dev).args.contains("--no-headers"@),
        list_call(dev).args.last() == dev,
        row_of_line(printed(list_call(dev), row)) == Ok::<ThinRow, ErrorView>(row),
{
    let columns = seq!["DEV"@, "MAPPED_BYTES"@, "EXCLUSIVE_BYTES"@];
    assert(list_call(dev).args[1] == "--no-headers"@);
    reveal_strlit("DEV");
    reveal_strlit("MAPPED_BYTES");
    reveal_strlit("EXCLUSIVE_BYTES");
    reveal_strlit("DEV,MAPPED_BYTES,EXCLUSIVE_BYTES");
    assert("DEV"@.len() == 3 && "MAPPED_BYTES"@.len() == 12 && "EXCLUSIVE_BYTES"@.len() == 15);
    assert(strung(columns, ',') =~= "DEV,MAPPED_BYTES,EXCLUSIVE_BYTES"@) by {
        reveal_with_fuel(strung, 4);
        assert(columns.drop_last().drop_last() =~= seq!["DEV"@]);
        assert(columns.drop_last().last() == "MAPPED_BYTES"@);
    }
    assert forall|i: int| 0 <= i < columns.len() implies !(#[trigger] columns[i]).contains(
        ',',
    ) by {
        assert(i == 0 || i == 1 || i == 2);
    }
    lemma_pieces_strung(columns, ',');
    let cells = seq![
        dec(row.dev_id as nat),
        dec(row.mapped_bytes as nat),
        dec(row.exclusive_bytes as nat),
    ];
    assert(columns.map_values(|c: Seq<char>| cell(c, row)) =~= cells);
    lemma_dec_is_word(row.dev_id as nat);
    lemma_dec_is_word(row.mapped_bytes as nat);
    lemma_dec_is_word(row.exclusive_bytes as nat);
    lemma_dec_parsed(row.dev_id as nat, u64::MAX as nat);
    lemma_dec_parsed(row.mapped_bytes as nat, u64::MAX as nat);
    lemma_dec_parsed(row.exclusive_bytes as nat, u64::MAX as nat);
    lemma_words_strung(cells);
}

/// The tool is told the sizes by their names, and asked for bytes; and metadata is mended
/// from the one place to the other.
pub proof fn law_tools_are_told_by_name(
    pool: u64,
    block: u64,
    thins: u64,
    input: Seq<char>,
    output: Seq<char>,
)
    ensures
        given(size_call(pool, block, thins).args, "--pool-size"@, dec(pool as nat)),
        given(size_call(pool, block, thins).args, "--block-size"@, dec(block as nat)),
        given(size_call(pool, block, thins).args, "--max-thins"@, dec(thins as nat)),
        given(size_call(pool, block, thins).args, "--unit"@, "b"@),
        size_call(pool, block, thins).args.contains("--numeric-only"@),
        given(repair_call(input, output).args, "-i"@, input),
        given(repair_call(input, output).args, "-o"@, output),
{
    let a = size_call(pool, block, thins).args;
    assert(a[0] == "--block-size"@ && a[2] == "--pool-size"@ && a[4] == "--max-thins"@ && a[6]
        == "--numeric-only"@ && a[7] == "--unit"@);
    let b = repair_call(input, output).args;
    assert(b[0] == "-i"@ && b[2] == "-o"@);
}

} // verus!
