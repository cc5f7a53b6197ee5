//! What ZFS volumes and datasets take.

use vstd::prelude::*;
use vstd::string::*;

use super::{figure, parse_u64};
use crate::command::{given, Invocation, InvocationView};
use crate::error::{outcome, Error, ErrorView};
use crate::text::{
    dec, decimal, lemma_dec_holds, lemma_dec_parsed, lemma_pieces_more, lemma_pieces_one,
    lemma_pieces_strung, lemma_texts_push, lines, lines_of, pieces, split, strung, texts, trim,
    trimmed,
};

verus! {

/// What a volume takes.
#[derive(Debug, PartialEq)]
pub struct VolumeRow {
    pub name: String,
    pub volsize: u64,
    pub used_by_dataset: u64,
    pub used_by_snapshots: u64,
    pub referenced: u64,
    pub logical_referenced: u64,
}

/// A [`VolumeRow`], its name taken by its text.
#[verifier::ext_equal]
pub struct VolumeRowView {
    pub name: Seq<char>,
    pub volsize: u64,
    pub used_by_dataset: u64,
    pub used_by_snapshots: u64,
    pub referenced: u64,
    pub logical_referenced: u64,
}

impl View for VolumeRow {
    type V = VolumeRowView;

    open spec fn view(&self) -> VolumeRowView {
        VolumeRowView {
            name: self.name@,
            volsize: self.volsize,
            used_by_dataset: self.used_by_dataset,
            used_by_snapshots: self.used_by_snapshots,
            referenced: self.referenced,
            logical_referenced: self.logical_referenced,
        }
    }
}

impl VolumeRow {
    /// The bytes that would be free without the volume. What is reserved for it
    /// does not count.
    pub fn exclusive(&self) -> (r: u64)
        ensures
            r == (if self.used_by_dataset + self.used_by_snapshots <= u64::MAX {
                self.used_by_dataset + self.used_by_snapshots
            } else {
                u64::MAX as int
            }),
    {
        self.used_by_dataset.saturating_add(self.used_by_snapshots)
    }
}

/// What a dataset takes, with all below it.
#[derive(Debug, PartialEq, Eq, Clone, Copy, Structural)]
pub struct DatasetTotals {
    pub used: u64,
    pub available: u64,
    pub logical_used: u64,
}

/// Asks for the volumes below a dataset.
pub open spec fn volumes_call(base: Seq<char>) -> InvocationView {
    InvocationView {
        program: "zfs"@,
        args: seq![
            "list"@,
            "-Hp"@,
            "-r"@,
            "-t"@,
            "volume"@,
            "-o"@,
            "name,volsize,usedbydataset,usedbysnapshots,referenced,logicalreferenced"@,
            base,
        ],
        label: "zfs list volumes"@,
        start_label: "zfs list"@,
    }
}

/// Asks for the volumes below a dataset, for [`parse_volumes`] to read.
pub fn volumes(base: &str) -> (r: Invocation)
    ensures
        r@ == volumes_call(base@),
{
    let call = Invocation::new("zfs", "zfs list volumes").started_as("zfs list");
    call.arg("list").arg("-Hp").arg("-r").arg("-t").arg(
        "volume",
    ).arg("-o").arg(
        "name,volsize,usedbydataset,usedbysnapshots,referenced,logicalreferenced",
    ).arg(base)
}

/// What a line of the listing says.
pub open spec fn row_of_line(line: Seq<char>) -> Result<VolumeRowView, ErrorView> {
    let f = pieces(line, '\t');
    if f.len() != 6 {
        Err(
            ErrorView::Zfs(
                "expected 6 tab-separated fields from `zfs list`, got "@ + dec(f.len()) + ": "@
                    + line,
            ),
        )
    } else {
        match (
            figure(f[1], "volsize"@),
            figure(f[2], "usedbydataset"@),
            figure(f[3], "usedbysnapshots"@),
            figure(f[4], "referenced"@),
            figure(f[5], "logicalreferenced"@),
        ) {
            (Err(e), _, _, _, _) => Err(e),
            (_, Err(e), _, _, _) => Err(e),
            (_, _, Err(e), _, _) => Err(e),
            (_, _, _, Err(e), _) => Err(e),
            (_, _, _, _, Err(e)) => Err(e),
            (Ok(a), Ok(b), Ok(c), Ok(d), Ok(g)) => Ok(
                VolumeRowView {
                    name: f[0],
                    volsize: a,
                    used_by_dataset: b,
                    used_by_snapshots: c,
                    referenced: d,
                    logical_referenced: g,
                },
            ),
        }
    }
}

/// What the lines of the listing say: the rows, or the first error. Lines of
/// white space say nothing.
pub open spec fn rows_of_lines(l: Seq<Seq<char>>) -> Result<Seq<VolumeRowView>, ErrorView>
    decreases l.len(),
{
    if l.len() == 0 {
        Ok(seq![])
    } else {
        match rows_of_lines(l.drop_last()) {
            Err(e) => Err(e),
            Ok(rows) => if trimmed(l.last()).len() == 0 {
                Ok(rows)
            } else {
                match row_of_line(l.last()) {
                    Err(e) => Err(e),
                    Ok(row) => Ok(rows.push(row)),
                }
            },
        }
    }
}

proof fn lemma_first_error(l: Seq<Seq<char>>, k: int)
    requires
        0 <= k <= l.len(),
        rows_of_lines(l.take(k)) is Err,
    ensures
        rows_of_lines(l) == rows_of_lines(l.take(k)),
    decreases l.len() - k,
{
    if k < l.len() {
        assert(l.take(k + 1).drop_last() =~= l.take(k));
        lemma_first_error(l, k + 1);
    } else {
        assert(l.take(k) =~= l);
    }
}

/// The views of a list of rows.
pub open spec fn row_views(rows: Seq<VolumeRow>) -> Seq<VolumeRowView> {
    rows.map_values(|r: VolumeRow| r@)
}

fn parse_row(line: &str) -> (r: Result<VolumeRow, Error>)
    ensures
        match r {
            Ok(row) => row_of_line(line@) == Ok::<VolumeRowView, ErrorView>(row@),
            Err(e) => row_of_line(line@) == Err::<VolumeRowView, ErrorView>(e@),
        },
{
    let f = split(line, '\t');
    assert(texts(f@).len() == f@.len());
    assert(forall|i: int| 0 <= i < f@.len() ==> texts(f@)[i] == #[trigger] f@[i]@);
    if f.len() != 6 {
        let n = decimal(f.len() as u64);
        return Err(
            Error::Zfs(
                "expected 6 tab-separated fields from `zfs list`, got ".to_owned().concat(
                    n.as_str(),
                ).concat(": ").concat(line),
            ),
        );
    }
    let volsize: u64 = match parse_u64(f[1].as_str(), "volsize") {
        Ok(n) => n,
        Err(e) => {
            return Err(e);
        },
    };
    let used_by_dataset: u64 = match parse_u64(f[2].as_str(), "usedbydataset") {
        Ok(n) => n,
        Err(e) => {
            return Err(e);
        },
    };
    let used_by_snapshots: u64 = match parse_u64(f[3].as_str(), "usedbysnapshots") {
        Ok(n) => n,
        Err(e) => {
            return Err(e);
        },
    };
    let referenced: u64 = match parse_u64(f[4].as_str(), "referenced") {
        Ok(n) => n,
        Err(e) => {
            return Err(e);
        },
    };
    let logical_referenced: u64 = match parse_u64(f[5].as_str(), "logicalreferenced") {
        Ok(n) => n,
        Err(e) => {
            return Err(e);
        },
    };
    Ok(
        VolumeRow {
            name: f[0].clone(),
            volsize,
            used_by_dataset,
            used_by_snapshots,
            referenced,
            logical_referenced,
        },
    )
}

/// Reads the listing of the volumes below a dataset.
pub fn parse_volumes(stdout: &str) -> (r: Result<Vec<VolumeRow>, Error>)
    ensures
        match r {
            Ok(rows) => rows_of_lines(lines_of(stdout@)) == Ok::<Seq<VolumeRowView>, ErrorView>(
                row_views(rows@),
            ),
            Err(e) => rows_of_lines(lines_of(stdout@)) == Err::<Seq<VolumeRowView>, ErrorView>(
                e@,
            ),
        },
{
    let l = lines(stdout);
    let ghost all = lines_of(stdout@);
    let mut rows: Vec<VolumeRow> = Vec::new();
    let mut i: usize = 0;
    assert(row_views(rows@) =~= seq![]);
    while i < l.len()
        invariant
            i <= l.len(),
            texts(l@) == all,
            all == lines_of(stdout@),
            rows_of_lines(all.take(i as int)) == Ok::<Seq<VolumeRowView>, ErrorView>(
                row_views(rows@),
            ),
        decreases l.len() - i,
    {
        assert(all.take(i + 1).drop_last() =~= all.take(i as int));
        assert(all[i as int] == l@[i as int]@);
        let line = l[i].as_str();
        if !trim(line).is_empty() {
            match parse_row(line) {
                Ok(row) => {
                    let ghost before = rows@;
                    rows.push(row);
                    assert(row_views(rows@) =~= row_views(before).push(row@));
                },
                Err(e) => {
                    proof {
                        lemma_first_error(all, i + 1);
                    }
                    return Err(e);
                },
            }
        }
        i = i + 1;
    }
    assert(all.take(i as int) =~= all);
    Ok(rows)
}

/// Asks for what a dataset takes, for [`parse_totals`] to read.
pub fn totals(base: &str) -> (r: Invocation)
    ensures
        r@ == (InvocationView {
            program: "zfs"@,
            args: seq![
                "get"@,
                "-Hp"@,
                "-o"@,
                "value"@,
                "used,available,logicalused"@,
                base@,
            ],
            label: "zfs get totals"@,
            start_label: "zfs get"@,
        }),
{
    let call = Invocation::new("zfs", "zfs get totals").started_as("zfs get");
    call.arg("get").arg("-Hp").arg("-o").arg("value").arg(
        "used,available,logicalused",
    ).arg(base)
}

/// The lines that hold more than white space, without the white space around.
pub open spec fn filled(l: Seq<Seq<char>>) -> Seq<Seq<char>>
    decreases l.len(),
{
    if l.len() == 0 {
        seq![]
    } else if trimmed(l.last()).len() == 0 {
        filled(l.drop_last())
    } else {
        filled(l.drop_last()).push(trimmed(l.last()))
    }
}

/// The lines that hold more than white space, without the white space around.
pub fn filled_lines(s: &str) -> (r: Vec<String>)
    ensures
        texts(r@) == filled(lines_of(s@)),
{
    let l = lines(s);
    let ghost all = lines_of(s@);
    let mut r: Vec<String> = Vec::new();
    let mut i: usize = 0;
    assert(texts(r@) =~= seq![]);
    while i < l.len()
        invariant
            i <= l.len(),
            texts(l@) == all,
            texts(r@) == filled(all.take(i as int)),
        decreases l.len() - i,
    {
        assert(all.take(i + 1).drop_last() =~= all.take(i as int));
        assert(all[i as int] == l@[i as int]@);
        let line = trim(l[i].as_str());
        if !line.is_empty() {
            let t = line.to_owned();
            proof {
                lemma_texts_push(r@, t);
            }
            r.push(t);
        }
        i = i + 1;
    }
    assert(all.take(i as int) =~= all);
    r
}

/// What the figures of a dataset say.
pub open spec fn totals_of(stdout: Seq<char>) -> Result<DatasetTotals, ErrorView> {
    let v = filled(lines_of(stdout));
    if v.len() != 3 {
        Err(
            ErrorView::Zfs(
                "expected 3 property values from `zfs get`, got "@ + dec(v.len()),
            ),
        )
    } else {
        match (figure(v[0], "used"@), figure(v[1], "available"@), figure(v[2], "logicalused"@)) {
            (Err(e), _, _) => Err(e),
            (_, Err(e), _) => Err(e),
            (_, _, Err(e)) => Err(e),
            (Ok(used), Ok(available), Ok(logical_used)) => Ok(
                DatasetTotals { used, available, logical_used },
            ),
        }
    }
}

/// Reads the figures of a dataset.
pub fn parse_totals(stdout: &str) -> (r: Result<DatasetTotals, Error>)
    ensures
        outcome(r) == totals_of(stdout@),
{
    let v = filled_lines(stdout);
    assert(texts(v@).len() == v@.len());
    assert(forall|i: int| 0 <= i < v@.len() ==> texts(v@)[i] == #[trigger] v@[i]@);
    if v.len() != 3 {
        let n = decimal(v.len() as u64);
        return Err(
            Error::Zfs(
                "expected 3 property values from `zfs get`, got ".to_owned().concat(n.as_str()),
            ),
        );
    }
    let used: u64 = match parse_u64(v[0].as_str(), "used") {
        Ok(n) => n,
        Err(e) => {
            return Err(e);
        },
    };
    let available: u64 = match parse_u64(v[1].as_str(), "available") {
        Ok(n) => n,
        Err(e) => {
            return Err(e);
        },
    };
    let logical_used: u64 = match parse_u64(v[2].as_str(), "logicalused") {
        Ok(n) => n,
        Err(e) => {
            return Err(e);
        },
    };
    Ok(DatasetTotals { used, available, logical_used })
}

/// What the tool prints in the column of this name for a volume.
pub open spec fn cell(column: Seq<char>, row: VolumeRowView) -> Seq<char> {
    if column == "name"@ {
        row.name
    } else if column == "volsize"@ {
        dec(row.volsize as nat)
    } else if column == "usedbydataset"@ {
        dec(row.used_by_dataset as nat)
    } else if column == "usedbysnapshots"@ {
        dec(row.used_by_snapshots as nat)
    } else if column == "referenced"@ {
        dec(row.referenced as nat)
    } else {
        dec(row.logical_referenced as nat)
    }
}

/// The line that the tool prints for a volume, with the columns that a call asks for.
pub open spec fn printed(call: InvocationView, row: VolumeRowView) -> Seq<char> {
    strung(pieces(call.args[6], ',').map_values(|c: Seq<char>| cell(c, row)), '\t')
}

proof fn lemma_columns()
    ensures
        pieces(
            "name,volsize,usedbydataset,usedbysnapshots,referenced,logicalreferenced"@,
            ',',
        ) == seq![
            "name"@,
            "volsize"@,
            "usedbydataset"@,
            "usedbysnapshots"@,
            "referenced"@,
            "logicalreferenced"@,
        ],
        "name"@.len() == 4,
        "volsize"@.len() == 7,
        "usedbydataset"@.len() == 13,
        "usedbysnapshots"@.len() == 15,
        "referenced"@.len() == 10,
        "logicalreferenced"@.len() == 17,
{
    let columns = seq![
        "name"@,
        "volsize"@,
        "usedbydataset"@,
        "usedbysnapshots"@,
        "referenced"@,
        "logicalreferenced"@,
    ];
    reveal_strlit("name");
    reveal_strlit("volsize");
    reveal_strlit("usedbydataset");
    reveal_strlit("usedbysnapshots");
    reveal_strlit("referenced");
    reveal_strlit("logicalreferenced");
    reveal_strlit("name,volsize,usedbydataset,usedbysnapshots,referenced,logicalreferenced");
    let whole = "name,volsize,usedbydataset,usedbysnapshots,referenced,logicalreferenced"@;
    let c2 = "name"@ + seq![','] + "volsize"@;
    let c3 = c2 + seq![','] + "usedbydataset"@;
    let c4 = c3 + seq![','] + "usedbysnapshots"@;
    let c5 = c4 + seq![','] + "referenced"@;
    let c6 = c5 + seq![','] + "logicalreferenced"@;
    assert(whole =~= c6);
    lemma_pieces_one("name"@, ',');
    lemma_pieces_more("name"@, "volsize"@, ',');
    lemma_pieces_more(c2, "usedbydataset"@, ',');
    lemma_pieces_more(c3, "usedbysnapshots"@, ',');
    lemma_pieces_more(c4, "referenced"@, ',');
    lemma_pieces_more(c5, "logicalreferenced"@, ',');
    assert(pieces(whole, ',') =~= columns);
}

/// What is read of a volume is what the tool has printed for it: the columns are read in
/// the order in which they are asked for, with tabs between them and in bytes.
pub proof fn law_columns_are_read_as_asked(base: Seq<char>, row: VolumeRowView)
    requires
        !row.name.contains('\t'),
    ensures
        volumes_call(base).program == "zfs"@,
        volumes_call(base).args[0] == "list"@ && volumes_call(base).args[1] == "-Hp"@,
        volumes_call(base).args[2] == "-r"@ && given(volumes_call(base).args, "-t"@, "volume"@),
        volumes_call(base).args[5] == "-o"@ && volumes_call(base).args.last() == base,
        row_of_line(printed(volumes_call(base), row)) == Ok::<VolumeRowView, ErrorView>(row),
{
    assert(volumes_call(base).args[3] == "-t"@);
    lemma_columns();
    let columns = pieces(volumes_call(base).args[6], ',');
    let cells = seq![
        row.name,
        dec(row.volsize as nat),
        dec(row.used_by_dataset as nat),
        dec(row.used_by_snapshots as nat),
        dec(row.referenced as nat),
        dec(row.logical_referenced as nat),
    ];
    assert(columns.map_values(|c: Seq<char>| cell(c, row)) =~= cells);
    lemma_dec_holds(row.volsize as nat, '\t');
    lemma_dec_holds(row.used_by_dataset as nat, '\t');
    lemma_dec_holds(row.used_by_snapshots as nat, '\t');
    lemma_dec_holds(row.referenced as nat, '\t');
    lemma_dec_holds(row.logical_referenced as nat, '\t');
    lemma_dec_parsed(row.volsize as nat, u64::MAX as nat);
    lemma_dec_parsed(row.used_by_dataset as nat, u64::MAX as nat);
    lemma_dec_parsed(row.used_by_snapshots as nat, u64::MAX as nat);
    lemma_dec_parsed(row.referenced as nat, u64::MAX as nat);
    lemma_dec_parsed(row.logical_referenced as nat, u64::MAX as nat);
    assert forall|i: int| 0 <= i < cells.len() implies !(#[trigger] cells[i]).contains('\t') by {
        assert(i == 0 || i == 1 || i == 2 || i == 3 || i == 4 || i == 5);
    }
    lemma_pieces_strung(cells, '\t');
}

} // verus!
