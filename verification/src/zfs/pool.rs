//! ZFS pools.

use vstd::prelude::*;
use vstd::string::*;

use super::{figure, parse_u64};
use crate::command::{Invocation, InvocationView};
use crate::error::{Error, ErrorView};
use crate::text::{
    dec, is_white, is_word, lemma_dec_holds, lemma_dec_is_word, lemma_dec_parsed,
    lemma_pieces_more, lemma_pieces_one, lemma_pieces_strung, lemma_trimmed_id, pieces, same,
    split, strung, texts, trim, trimmed,
};

verus! {

/// How a pool is doing.
#[derive(Debug, PartialEq, Eq)]
pub enum PoolHealth {
    Online,
    Degraded,
    Faulted,
    Offline,
    Removed,
    Unavail,
    /// Something else, in the words of the tool.
    Unknown(String),
}

/// A [`PoolHealth`], its string taken by its text.
#[verifier::ext_equal]
pub enum PoolHealthView {
    Online,
    Degraded,
    Faulted,
    Offline,
    Removed,
    Unavail,
    Unknown(Seq<char>),
}

impl View for PoolHealth {
    type V = PoolHealthView;

    open spec fn view(&self) -> PoolHealthView {
        match self {
            PoolHealth::Online => PoolHealthView::Online,
            PoolHealth::Degraded => PoolHealthView::Degraded,
            PoolHealth::Faulted => PoolHealthView::Faulted,
            PoolHealth::Offline => PoolHealthView::Offline,
            PoolHealth::Removed => PoolHealthView::Removed,
            PoolHealth::Unavail => PoolHealthView::Unavail,
            PoolHealth::Unknown(s) => PoolHealthView::Unknown(s@),
        }
    }
}

/// What a word of the tool says of the health of a pool.
pub open spec fn health_of(s: Seq<char>) -> PoolHealthView {
    let w = trimmed(s);
    if w == "ONLINE"@ {
        PoolHealthView::Online
    } else if w == "DEGRADED"@ {
        PoolHealthView::Degraded
    } else if w == "FAULTED"@ {
        PoolHealthView::Faulted
    } else if w == "OFFLINE"@ {
        PoolHealthView::Offline
    } else if w == "REMOVED"@ {
        PoolHealthView::Removed
    } else if w == "UNAVAIL"@ {
        PoolHealthView::Unavail
    } else {
        PoolHealthView::Unknown(w)
    }
}

/// The word for the health of a pool.
pub open spec fn health_text(h: PoolHealthView) -> Seq<char> {
    match h {
        PoolHealthView::Online => "ONLINE"@,
        PoolHealthView::Degraded => "DEGRADED"@,
        PoolHealthView::Faulted => "FAULTED"@,
        PoolHealthView::Offline => "OFFLINE"@,
        PoolHealthView::Removed => "REMOVED"@,
        PoolHealthView::Unavail => "UNAVAIL"@,
        PoolHealthView::Unknown(s) => s,
    }
}

impl PoolHealth {
    /// The word for the health of a pool.
    pub fn to_string(&self) -> (r: String)
        ensures
            r@ == health_text(self@),
    {
        match self {
            PoolHealth::Online => "ONLINE".to_owned(),
            PoolHealth::Degraded => "DEGRADED".to_owned(),
            PoolHealth::Faulted => "FAULTED".to_owned(),
            PoolHealth::Offline => "OFFLINE".to_owned(),
            PoolHealth::Removed => "REMOVED".to_owned(),
            PoolHealth::Unavail => "UNAVAIL".to_owned(),
            PoolHealth::Unknown(s) => s.clone(),
        }
    }
}

impl From<&str> for PoolHealth {
    fn from(s: &str) -> (r: PoolHealth)
        ensures
            r@ == health_of(s@),
    {
        let w = trim(s);
        if same(w, "ONLINE") {
            PoolHealth::Online
        } else if same(w, "DEGRADED") {
            PoolHealth::Degraded
        } else if same(w, "FAULTED") {
            PoolHealth::Faulted
        } else if same(w, "OFFLINE") {
            PoolHealth::Offline
        } else if same(w, "REMOVED") {
            PoolHealth::Removed
        } else if same(w, "UNAVAIL") {
            PoolHealth::Unavail
        } else {
            PoolHealth::Unknown(w.to_owned())
        }
    }
}

impl vstd::std_specs::convert::FromSpecImpl<&str> for PoolHealth {
    open spec fn obeys_from_spec() -> bool {
        false
    }

    open spec fn from_spec(s: &str) -> PoolHealth {
        arbitrary()
    }
}

/// What is known of a pool.
#[derive(Debug, PartialEq)]
pub struct PoolInfo {
    pub name: String,
    pub health: PoolHealth,
    pub size: u64,
    pub allocated: u64,
    pub free: u64,
}

/// A [`PoolInfo`], its strings taken by their texts.
#[verifier::ext_equal]
pub struct PoolInfoView {
    pub name: Seq<char>,
    pub health: PoolHealthView,
    pub size: u64,
    pub allocated: u64,
    pub free: u64,
}

impl View for PoolInfo {
    type V = PoolInfoView;

    open spec fn view(&self) -> PoolInfoView {
        PoolInfoView {
            name: self.name@,
            health: self.health@,
            size: self.size,
            allocated: self.allocated,
            free: self.free,
        }
    }
}

/// Asks whether a pool is there: the call succeeds when it is.
pub fn query(pool: &str) -> (r: Invocation)
    ensures
        r@ == (InvocationView {
            program: "zpool"@,
            args: seq!["list"@, "-H"@, "-o"@, "name"@, pool@],
            label: "zpool list"@,
            start_label: "zpool list"@,
        }),
{
    Invocation::new("zpool", "zpool list").arg("list").arg("-H").arg("-o").arg("name").arg(pool)
}

/// Asks for the state of a pool.
pub open spec fn status_call(pool: Seq<char>) -> InvocationView {
    InvocationView {
        program: "zpool"@,
        args: seq!["list"@, "-Hp"@, "-o"@, "name,health,size,alloc,free"@, pool],
        label: "zpool list"@,
        start_label: "zpool list"@,
    }
}

/// Asks for the state of a pool, for [`parse_status`] to read.
pub fn status(pool: &str) -> (r: Invocation)
    ensures
        r@ == status_call(pool@),
{
    Invocation::new("zpool", "zpool list").arg("list").arg("-Hp").arg("-o").arg(
        "name,health,size,alloc,free",
    ).arg(pool)
}

/// What the listing of a pool says.
pub open spec fn info_of(stdout: Seq<char>) -> Result<PoolInfoView, ErrorView> {
    let line = trimmed(stdout);
    let f = pieces(line, '\t');
    if f.len() < 5 {
        Err(ErrorView::Zfs("unexpected zpool list output: "@ + line))
    } else {
        match (figure(f[2], "size"@), figure(f[3], "allocated"@), figure(f[4], "free"@)) {
            (Err(e), _, _) => Err(e),
            (_, Err(e), _) => Err(e),
            (_, _, Err(e)) => Err(e),
            (Ok(size), Ok(allocated), Ok(free)) => Ok(
                PoolInfoView { name: f[0], health: health_of(f[1]), size, allocated, free },
            ),
        }
    }
}

/// Reads the listing of a pool.
pub fn parse_status(stdout: &str) -> (r: Result<PoolInfo, Error>)
    ensures
        match r {
            Ok(info) => info_of(stdout@) == Ok::<PoolInfoView, ErrorView>(info@),
            Err(e) => info_of(stdout@) == Err::<PoolInfoView, ErrorView>(e@),
        },
{
    let line = trim(stdout);
    let f = split(line, '\t');
    assert(texts(f@).len() == f@.len());
    assert(forall|i: int| 0 <= i < f@.len() ==> texts(f@)[i] == #[trigger] f@[i]@);
    if f.len() < 5 {
        return Err(Error::Zfs("unexpected zpool list output: ".to_owned().concat(line)));
    }
    let size: u64 = match parse_u64(f[2].as_str(), "size") {
        Ok(n) => n,
        Err(e) => {
            return Err(e);
        },
    };
    let allocated: u64 = match parse_u64(f[3].as_str(), "allocated") {
        Ok(n) => n,
        Err(e) => {
            return Err(e);
        },
    };
    let free: u64 = match parse_u64(f[4].as_str(), "free") {
        Ok(n) => n,
        Err(e) => {
            return Err(e);
        },
    };
    Ok(
        PoolInfo {
            name: f[0].clone(),
            health: PoolHealth::from(f[1].as_str()),
            size,
            allocated,
            free,
        },
    )
}

/// The call that makes a pool on a device.
pub open spec fn create_call(pool: Seq<char>, device: Seq<char>) -> InvocationView {
    InvocationView {
        program: "zpool"@,
        args: seq![
            "create"@,
            "-f"@,
            "-o"@,
            "ashift=12"@,
            "-O"@,
            "mountpoint=none"@,
            pool,
            device,
        ],
        label: "zpool create"@,
        start_label: "zpool create"@,
    }
}

/// The call that makes a pool on a device.
pub fn create(pool: &str, device: &str) -> (r: Invocation)
    ensures
        r@ == create_call(pool@, device@),
{
    Invocation::new("zpool", "zpool create").arg("create").arg("-f").arg("-o").arg(
        "ashift=12",
    ).arg("-O").arg("mountpoint=none").arg(pool).arg(device)
}

/// Reading the word for a health gives the health back, unless it is one of
/// the tool's own words that happens to be a known one or has white space
/// around it.
pub proof fn law_health_round_trip(h: PoolHealthView)
    requires
        h matches PoolHealthView::Unknown(s) ==> health_of(s) == h,
    ensures
        health_of(health_text(h)) == h,
{
    reveal_strlit("ONLINE");
    reveal_strlit("DEGRADED");
    reveal_strlit("FAULTED");
    reveal_strlit("OFFLINE");
    reveal_strlit("REMOVED");
    reveal_strlit("UNAVAIL");
    let on = "ONLINE"@;
    let off = "OFFLINE"@;
    let deg = "DEGRADED"@;
    let fau = "FAULTED"@;
    let rem = "REMOVED"@;
    let una = "UNAVAIL"@;
    assert(on.len() == 6 && off.len() == 7 && deg.len() == 8 && fau.len() == 7 && rem.len() == 7
        && una.len() == 7);
    assert(off[0] == 'O' && fau[0] == 'F' && rem[0] == 'R' && una[0] == 'U');
    assert(trimmed(on) == on && trimmed(off) == off && trimmed(deg) == deg && trimmed(fau) == fau
        && trimmed(rem) == rem && trimmed(una) == una) by {
        crate::text::lemma_trimmed_id(on);
        crate::text::lemma_trimmed_id(off);
        crate::text::lemma_trimmed_id(deg);
        crate::text::lemma_trimmed_id(fau);
        crate::text::lemma_trimmed_id(rem);
        crate::text::lemma_trimmed_id(una);
    }
}

/// What the tool prints in the column of this name for a pool.
pub open spec fn cell(column: Seq<char>, p: PoolInfoView) -> Seq<char> {
    if column == "name"@ {
        p.name
    } else if column == "health"@ {
        health_text(p.health)
    } else if column == "size"@ {
        dec(p.size as nat)
    } else if column == "alloc"@ {
        dec(p.allocated as nat)
    } else {
        dec(p.free as nat)
    }
}

/// The line that the tool prints for a pool, with the columns that a call asks for.
pub open spec fn printed(call: InvocationView, p: PoolInfoView) -> Seq<char> {
    strung(pieces(call.args[3], ',').map_values(|c: Seq<char>| cell(c, p)), '\t')
}

proof fn lemma_columns()
    ensures
        pieces("name,health,size,alloc,free"@, ',') == seq![
            "name"@,
            "health"@,
            "size"@,
            "alloc"@,
            "free"@,
        ],
        "name"@ != "health"@,
        "name"@ != "size"@,
        "name"@ != "alloc"@,
        "name"@ != "free"@,
        "health"@ != "size"@,
        "health"@ != "alloc"@,
        "health"@ != "free"@,
        "size"@ != "alloc"@,
        "size"@ != "free"@,
        "alloc"@ != "free"@,
{
    let columns = seq!["name"@, "health"@, "size"@, "alloc"@, "free"@];
    reveal_strlit("name");
    reveal_strlit("health");
    reveal_strlit("size");
    reveal_strlit("alloc");
    reveal_strlit("free");
    reveal_strlit("name,health,size,alloc,free");
    assert("name"@[0] == 'n' && "health"@[0] == 'h' && "size"@[0] == 's' && "alloc"@[0] == 'a'
        && "free"@[0] == 'f');
    let c2 = "name"@ + seq![','] + "health"@;
    let c3 = c2 + seq![','] + "size"@;
    let c4 = c3 + seq![','] + "alloc"@;
    let c5 = c4 + seq![','] + "free"@;
    assert("name,health,size,alloc,free"@ =~= c5);
    lemma_pieces_one("name"@, ',');
    lemma_pieces_more("name"@, "health"@, ',');
    lemma_pieces_more(c2, "size"@, ',');
    lemma_pieces_more(c3, "alloc"@, ',');
    lemma_pieces_more(c4, "free"@, ',');
    assert(pieces(c5, ',') =~= columns);
}

/// What is read of a pool is what the tool has printed for it: the columns are read in the
/// order in which they are asked for, with tabs between them and in bytes.
pub proof fn law_columns_are_read_as_asked(pool: Seq<char>, p: PoolInfoView)
    requires
        is_word(p.name),
        is_word(health_text(p.health)),
        health_of(health_text(p.health)) == p.health,
    ensures
        status_call(pool).program == "zpool"@,
        status_call(pool).args[0] == "list"@ && status_call(pool).args[1] == "-Hp"@,
        status_call(pool).args[2] == "-o"@ && status_call(pool).args.last() == pool,
        info_of(printed(status_call(pool), p)) == Ok::<PoolInfoView, ErrorView>(p),
{
    lemma_columns();
    let columns = pieces(status_call(pool).args[3], ',');
    let cells = seq![
        p.name,
        health_text(p.health),
        dec(p.size as nat),
        dec(p.allocated as nat),
        dec(p.free as nat),
    ];
    assert(columns.map_values(|c: Seq<char>| cell(c, p)) =~= cells);
    lemma_dec_holds(p.size as nat, '\t');
    lemma_dec_holds(p.allocated as nat, '\t');
    lemma_dec_holds(p.free as nat, '\t');
    lemma_dec_parsed(p.size as nat, u64::MAX as nat);
    lemma_dec_parsed(p.allocated as nat, u64::MAX as nat);
    lemma_dec_parsed(p.free as nat, u64::MAX as nat);
    lemma_dec_is_word(p.free as nat);
    assert(is_white('\t'));
    assert forall|i: int| 0 <= i < cells.len() implies !(#[trigger] cells[i]).contains('\t') by {
        assert(i == 0 || i == 1 || i == 2 || i == 3 || i == 4);
    }
    lemma_pieces_strung(cells, '\t');
    let line = strung(cells, '\t');
    let c3 = strung(cells.drop_last(), '\t');
    assert(line == c3 + seq!['\t'] + cells.last());
    reveal_with_fuel(strung, 6);
    assert(cells.drop_last().drop_last().drop_last().drop_last()[0] == p.name);
    assert(line[0] == p.name[0]);
    assert(line.last() == dec(p.free as nat).last());
    lemma_trimmed_id(line);
}

} // verus!
