//! Running commands in machines.

use vstd::prelude::*;
use vstd::string::*;

use crate::text::{chars_of, is_white, texts, white};
use crate::vm::{load_running_with_network, reachable, VmMetadata};

verus! {

/// What to run where.
#[derive(Debug)]
pub struct ExecArgs {
    pub vm_name: String,
    pub user: Option<String>,
    pub command: Vec<String>,
}

/// Whether a shell would read something into a character.
pub open spec fn is_special(c: char) -> bool {
    ||| is_white(c)
    ||| c == '"'
    ||| c == '\''
    ||| c == '\\'
    ||| c == '$'
    ||| c == '`'
    ||| c == '!'
    ||| c == '#'
    ||| c == '&'
    ||| c == '|'
    ||| c == ';'
    ||| c == '('
    ||| c == ')'
    ||| c == '{'
    ||| c == '}'
    ||| c == '['
    ||| c == ']'
    ||| c == '<'
    ||| c == '>'
    ||| c == '?'
    ||| c == '*'
    ||| c == '~'
}

fn special(c: char) -> (r: bool)
    ensures
        r == is_special(c),
{
    white(c) || c == '"' || c == '\'' || c == '\\' || c == '$' || c == '`' || c == '!' || c == '#'
        || c == '&' || c == '|' || c == ';' || c == '(' || c == ')' || c == '{' || c == '}' || c
        == '[' || c == ']' || c == '<' || c == '>' || c == '?' || c == '*' || c == '~'
}

/// Whether an argument has to be quoted.
pub open spec fn needs_quotes(arg: Seq<char>) -> bool {
    arg.len() == 0 || exists|i: int| 0 <= i < arg.len() && is_special(#[trigger] arg[i])
}

/// An argument as it stands between quotes: each quote in it ends the quotation,
/// stands for itself, and starts another one.
pub open spec fn between_quotes(arg: Seq<char>) -> Seq<char>
    decreases arg.len(),
{
    if arg.len() == 0 {
        seq![]
    } else if arg.last() == '\'' {
        between_quotes(arg.drop_last()) + seq!['\'', '\\', '\'', '\'']
    } else {
        between_quotes(arg.drop_last()).push(arg.last())
    }
}

/// An argument, written so that a shell takes it for one word.
pub open spec fn escaped(arg: Seq<char>) -> Seq<char> {
    if needs_quotes(arg) {
        seq!['\''] + between_quotes(arg) + seq!['\'']
    } else {
        arg
    }
}

/// Arguments, written so that a shell takes each for one word.
pub open spec fn escaped_all(args: Seq<Seq<char>>) -> Seq<char>
    decreases args.len(),
{
    if args.len() == 0 {
        seq![]
    } else if args.len() == 1 {
        escaped(args[0])
    } else {
        escaped_all(args.drop_last()) + seq![' '] + escaped(args.last())
    }
}

fn escape(arg: &str) -> (r: String)
    ensures
        r@ == escaped(arg@),
{
    let v = chars_of(arg);
    let mut quote = v.len() == 0;
    let mut i: usize = 0;
    while i < v.len()
        invariant
            i <= v.len(),
            v@ == arg@,
            v@.len() > 0 ==> quote == exists|k: int| 0 <= k < i && is_special(#[trigger] v@[k]),
            v@.len() == 0 ==> quote,
        decreases v.len() - i,
    {
        if special(v[i]) {
            assert(is_special(v@[i as int]));
            quote = true;
        }
        i = i + 1;
    }
    if !quote {
        return arg.to_owned();
    }
    assert(needs_quotes(arg@));
    proof {
        reveal_strlit("'");
    }
    let mut r = "'".to_owned();
    assert(r@ =~= seq!['\''] + between_quotes(v@.take(0)));
    let mut k: usize = 0;
    while k < v.len()
        invariant
            k <= v.len(),
            r@ == seq!['\''] + between_quotes(v@.take(k as int)),
        decreases v.len() - k,
    {
        let ghost before = between_quotes(v@.take(k as int));
        assert(v@.take(k + 1).drop_last() =~= v@.take(k as int));
        if v[k] == '\'' {
            r.push('\'');
            r.push('\\');
            r.push('\'');
            r.push('\'');
            assert(r@ =~= seq!['\''] + (before + seq!['\'', '\\', '\'', '\'']));
        } else {
            r.push(v[k]);
            assert(r@ =~= seq!['\''] + before.push(v@[k as int]));
        }
        k = k + 1;
    }
    assert(v@.take(k as int) =~= v@);
    r.push('\'');
    assert(r@ =~= escaped(arg@));
    r
}

/// Arguments, written so that a shell takes each for one word.
pub fn shell_escape_join(args: &Vec<String>) -> (r: String)
    ensures
        r@ == escaped_all(texts(args@)),
{
    proof {
        reveal_strlit("");
        reveal_strlit(" ");
    }
    let ghost all = texts(args@);
    let mut r = "".to_owned();
    let mut i: usize = 0;
    assert(r@ =~= escaped_all(all.take(0)));
    while i < args.len()
        invariant
            i <= args.len(),
            all == texts(args@),
            r@ == escaped_all(all.take(i as int)),
        decreases args.len() - i,
    {
        assert(all[i as int] == args@[i as int]@);
        assert(all.take(i + 1).drop_last() =~= all.take(i as int));
        assert(all.take(i + 1).last() == all[i as int]);
        let word = escape(args[i].as_str());
        if i > 0 {
            r.push(' ');
            r = r.concat(word.as_str());
            assert(r@ =~= escaped_all(all.take(i as int)) + seq![' '] + word@);
        } else {
            assert(all.take(1)[0] == all[0]);
            r = word;
        }
        i = i + 1;
    }
    assert(all.take(i as int) =~= all);
    r
}

// ---------------------------------------------------------------------
// What a shell makes of it
// ---------------------------------------------------------------------

/// How a shell takes the next character.
pub enum Quoting {
    /// As it is, with white space between words.
    Plain,
    /// Literally, up to the end of the quotation.
    Quoted,
    /// Literally.
    Literal,
}

/// What a shell has read so far: the words, the one that it is in, and how it
/// takes the next character.
#[verifier::ext_equal]
pub struct Reading {
    pub words: Seq<Seq<char>>,
    pub word: Option<Seq<char>>,
    pub quoting: Quoting,
}

/// The word that a shell is in, which may have just begun.
pub open spec fn word_or_new(r: Reading) -> Seq<char> {
    match r.word {
        Some(w) => w,
        None => seq![],
    }
}

/// What a shell has read after one more character.
pub open spec fn read_char(r: Reading, c: char) -> Reading {
    match r.quoting {
        Quoting::Literal => Reading {
            word: Some(word_or_new(r).push(c)),
            quoting: Quoting::Plain,
            ..r
        },
        Quoting::Quoted => if c == '\'' {
            Reading { quoting: Quoting::Plain, ..r }
        } else {
            Reading { word: Some(word_or_new(r).push(c)), ..r }
        },
        Quoting::Plain => if is_white(c) {
            match r.word {
                Some(w) => Reading { words: r.words.push(w), word: None, ..r },
                None => r,
            }
        } else if c == '\'' {
            Reading { word: Some(word_or_new(r)), quoting: Quoting::Quoted, ..r }
        } else if c == '\\' {
            Reading { word: Some(word_or_new(r)), quoting: Quoting::Literal, ..r }
        } else {
            Reading { word: Some(word_or_new(r).push(c)), ..r }
        },
    }
}

/// What a shell has read after a text.
pub open spec fn read_text(r: Reading, s: Seq<char>) -> Reading
    decreases s.len(),
{
    if s.len() == 0 {
        r
    } else {
        read_char(read_text(r, s.drop_last()), s.last())
    }
}

/// The words that a shell finds in a text.
pub open spec fn shell_words(s: Seq<char>) -> Seq<Seq<char>> {
    let r = read_text(Reading { words: seq![], word: None, quoting: Quoting::Plain }, s);
    match r.word {
        Some(w) => r.words.push(w),
        None => r.words,
    }
}

proof fn lemma_read_concat(r: Reading, a: Seq<char>, b: Seq<char>)
    ensures
        read_text(r, a + b) == read_text(read_text(r, a), b),
    decreases b.len(),
{
    if b.len() == 0 {
        assert(a + b =~= a);
    } else {
        assert((a + b).drop_last() =~= a + b.drop_last());
        assert((a + b).last() == b.last());
        lemma_read_concat(r, a, b.drop_last());
    }
}

proof fn lemma_read_one(r: Reading, c: char)
    ensures
        read_text(r, seq![c]) == read_char(r, c),
{
    reveal_with_fuel(read_text, 2);
    assert(seq![c].drop_last() =~= seq![]);
}

proof fn lemma_read_quoted(r: Reading, arg: Seq<char>)
    requires
        r.quoting == Quoting::Quoted,
        r.word is Some,
    ensures
        read_text(r, between_quotes(arg)) == (Reading {
            word: Some(r.word->0 + arg),
            ..r
        }),
    decreases arg.len(),
{
    if arg.len() == 0 {
        assert(r.word->0 + arg =~= r.word->0);
    } else {
        let less = arg.drop_last();
        lemma_read_quoted(r, less);
        let mid = Reading { word: Some(r.word->0 + less), ..r };
        let c = arg.last();
        assert(r.word->0 + arg =~= (r.word->0 + less).push(c));
        if c == '\'' {
            let tail = seq!['\'', '\\', '\'', '\''];
            lemma_read_concat(r, between_quotes(less), tail);
            let a = read_char(mid, '\'');
            let b = read_char(a, '\\');
            let d = read_char(b, '\'');
            let e = read_char(d, '\'');
            assert(tail =~= seq!['\''] + seq!['\\'] + seq!['\''] + seq!['\'']);
            lemma_read_concat(mid, seq!['\''] + seq!['\\'] + seq!['\''], seq!['\'']);
            lemma_read_concat(mid, seq!['\''] + seq!['\\'], seq!['\'']);
            lemma_read_concat(mid, seq!['\''], seq!['\\']);
            lemma_read_one(mid, '\'');
            lemma_read_one(a, '\\');
            lemma_read_one(b, '\'');
            lemma_read_one(d, '\'');
            assert(read_text(mid, tail) == e);
            assert(e.word->0 =~= r.word->0 + arg);
        } else {
            lemma_read_concat(r, between_quotes(less), seq![c]);
            lemma_read_one(mid, c);
            assert(between_quotes(arg) =~= between_quotes(less) + seq![c]);
        }
    }
}

proof fn lemma_read_plain(r: Reading, arg: Seq<char>)
    requires
        r.quoting == Quoting::Plain,
        forall|i: int| 0 <= i < arg.len() ==> !is_special(#[trigger] arg[i]),
    ensures
        read_text(r, arg) == (if arg.len() == 0 {
            r
        } else {
            Reading { word: Some(word_or_new(r) + arg), ..r }
        }),
    decreases arg.len(),
{
    if arg.len() > 0 {
        let less = arg.drop_last();
        assert forall|i: int| 0 <= i < less.len() implies !is_special(#[trigger] less[i]) by {
            assert(!is_special(arg[i]));
        }
        lemma_read_plain(r, less);
        assert(!is_special(arg[arg.len() - 1]));
        let w = word_or_new(r);
        assert((w + less).push(arg.last()) =~= w + arg);
        assert(w + seq![] =~= w);
        if less.len() == 0 {
            assert(w + less =~= w);
        }
    }
}

proof fn lemma_read_escaped(r: Reading, arg: Seq<char>)
    requires
        r.quoting == Quoting::Plain,
        r.word is None,
    ensures
        read_text(r, escaped(arg)) == (Reading { word: Some(arg), ..r }),
{
    if needs_quotes(arg) {
        let inner = between_quotes(arg);
        lemma_read_concat(r, seq!['\''] + inner, seq!['\'']);
        lemma_read_concat(r, seq!['\''], inner);
        lemma_read_one(r, '\'');
        let a = read_char(r, '\'');
        lemma_read_quoted(a, arg);
        let empty: Seq<char> = seq![];
        assert(empty + arg =~= arg);
        let b = Reading { word: Some(arg), ..a };
        lemma_read_one(b, '\'');
    } else {
        lemma_read_plain(r, arg);
        let empty: Seq<char> = seq![];
        assert(empty + arg =~= arg);
    }
}

proof fn lemma_read_all(args: Seq<Seq<char>>)
    requires
        args.len() > 0,
    ensures
        read_text(
            Reading { words: seq![], word: None, quoting: Quoting::Plain },
            escaped_all(args),
        ) == (Reading {
            words: args.drop_last(),
            word: Some(args.last()),
            quoting: Quoting::Plain,
        }),
    decreases args.len(),
{
    let start = Reading { words: seq![], word: None, quoting: Quoting::Plain };
    if args.len() == 1 {
        lemma_read_escaped(start, args[0]);
        assert(args.drop_last() =~= seq![]);
    } else {
        let less = args.drop_last();
        lemma_read_all(less);
        let head = escaped_all(less);
        let tail = escaped(args.last());
        lemma_read_concat(start, head + seq![' '], tail);
        lemma_read_concat(start, head, seq![' ']);
        let a = Reading {
            words: less.drop_last(),
            word: Some(less.last()),
            quoting: Quoting::Plain,
        };
        lemma_read_one(a, ' ');
        assert(is_white(' '));
        let b = read_char(a, ' ');
        assert(b.words =~= less);
        lemma_read_escaped(b, args.last());
    }
}

/// A shell finds exactly the given arguments in what is handed to it.
pub proof fn law_shell_gets_the_arguments(args: Seq<Seq<char>>)
    ensures
        shell_words(escaped_all(args)) == args,
{
    if args.len() == 0 {
        assert(escaped_all(args) =~= seq![]);
        assert(args =~= seq![]);
    } else {
        lemma_read_all(args);
        assert(args.drop_last().push(args.last()) =~= args);
    }
}

// ---------------------------------------------------------------------
// Where to run it
// ---------------------------------------------------------------------

/// Where and as whom to run what.
#[derive(Debug, PartialEq)]
pub struct Remote {
    pub guest_ip: String,
    pub user: String,
    pub key: String,
    pub command: String,
}

/// Whether `t` says where and as whom to run a command.
pub open spec fn runs(t: Remote, args: ExecArgs, m: VmMetadata) -> bool {
    &&& t.guest_ip@ == m.network->0.guest_ip@
    &&& t.user@ == (match args.user {
        Some(u) => u@,
        None => m.ssh.user@,
    })
    &&& t.key@ == m.ssh.key@
    &&& t.command@ == escaped_all(texts(args.command@))
}

/// Where and as whom to run a command, or why not.
pub fn run(args: &ExecArgs, metadata: &VmMetadata) -> (r: Result<Remote, String>)
    ensures
        match r {
            Err(e) => reachable(args.vm_name@, *metadata) == Err::<(), Seq<char>>(e@),
            Ok(t) => reachable(args.vm_name@, *metadata) is Ok && runs(t, *args, *metadata),
        },
{
    let network = load_running_with_network(args.vm_name.as_str(), metadata)?;
    Ok(
        Remote {
            guest_ip: network.guest_ip,
            user: match &args.user {
                Some(u) => u.clone(),
                None => metadata.ssh.user.clone(),
            },
            key: metadata.ssh.key.clone(),
            command: shell_escape_join(&args.command),
        },
    )
}

/// A command is run on the machine that was named, with its key: as the user who was asked
/// for, or else as its own. The shell there finds the arguments as they were given.
pub proof fn law_a_command_is_run_where_it_belongs(t: Remote, args: ExecArgs, m: VmMetadata)
    requires
        runs(t, args, m),
    ensures
        t.guest_ip@ == m.network->0.guest_ip@,
        t.key@ == m.ssh.key@,
        args.user matches Some(u) ==> t.user@ == u@,
        args.user is None ==> t.user@ == m.ssh.user@,
        shell_words(t.command@) == texts(args.command@),
{
    law_shell_gets_the_arguments(texts(args.command@));
}

} // verus!
