//! What the command lines say: arguments read back as what they were written for.

use crate::cli;
use crate::event;
use crate::records;
use crate::text;
use vstd::prelude::*;

verus! {

proof fn lemma_flags()
    ensures
        "--"@.len() == 2 && "--"@[0] == '-' && "--"@[1] == '-',
        "-l"@.len() == 2 && "-l"@[0] == '-' && "-l"@[1] == 'l',
        "-h"@.len() == 2 && "-h"@[0] == '-' && "-h"@[1] == 'h',
        "--base"@.len() == 6 && "--base"@[0] == '-' && "--base"@[2] == 'b' && "--base"@[3] == 'a',
        "--body"@.len() == 6 && "--body"@[0] == '-' && "--body"@[2] == 'b' && "--body"@[3] == 'o',
        "--file"@.len() == 6 && "--file"@[0] == '-' && "--file"@[2] == 'f',
        "--line"@.len() == 6 && "--line"@[0] == '-' && "--line"@[2] == 'l',
        "--help"@.len() == 6 && "--help"@[0] == '-' && "--help"@[2] == 'h',
        "--label"@.len() == 7 && "--label"@[0] == '-' && "--label"@[2] == 'l',
        "--source"@.len() == 8 && "--source"@[0] == '-' && "--source"@[2] == 's',
        "--reject"@.len() == 8 && "--reject"@[0] == '-' && "--reject"@[2] == 'r',
        "--commit"@.len() == 8 && "--commit"@[0] == '-' && "--commit"@[2] == 'c',
        "--approve"@.len() == 9 && "--approve"@[0] == '-',
{
    reveal_strlit("--");
    reveal_strlit("-l");
    reveal_strlit("-h");
    reveal_strlit("--base");
    reveal_strlit("--body");
    reveal_strlit("--file");
    reveal_strlit("--line");
    reveal_strlit("--help");
    reveal_strlit("--label");
    reveal_strlit("--source");
    reveal_strlit("--reject");
    reveal_strlit("--commit");
    reveal_strlit("--approve");
}

// ---------------------------------------------------------------------------
// Numbers

/// The number of an issue or a pull request reads back from its decimal form, with a plus
/// sign before it or none.
pub proof fn law_number_reads_back(n: nat)
    requires
        1 <= n <= u64::MAX,
    ensures
        cli::entity_id_of(text::decimal(n)) == Ok::<int, Seq<char>>(n as int),
        cli::entity_id_of(seq!['+'] + text::decimal(n)) == Ok::<int, Seq<char>>(n as int),
{
    let d = text::decimal(n);
    text::law_decimal_reads_back(n);
    assert(text::is_digit(d[0]));
    assert((seq!['+'] + d).skip(1) =~= d);
    assert((seq!['+'] + d)[0] == '+');
}

proof fn lemma_digits_not_negative(s: Seq<char>)
    requires
        text::all_digits(s),
    ensures
        0 <= text::digits_value(s),
    decreases s.len(),
{
    if s.len() > 0 {
        let t = s.drop_last();
        assert forall|i: int| 0 <= i < t.len() implies text::is_digit(#[trigger] t[i]) by {
            assert(t[i] == s[i]);
        }
        lemma_digits_not_negative(t);
        assert(text::is_digit(s[s.len() - 1]));
    }
}

/// What is read as a number is written in digits and lies from 1 to the largest number of
/// 64 bits; digits that stand for such a number are read.
pub proof fn law_number_is_digits(s: Seq<char>)
    ensures
        cli::entity_id_of(s) matches Ok(n) ==> {
            &&& 1 <= n <= u64::MAX
            &&& text::all_digits(s) || (s[0] == '+' && text::all_digits(s.skip(1)))
        },
        s.len() > 0 && text::all_digits(s) && 1 <= text::digits_value(s) <= u64::MAX
            ==> cli::entity_id_of(s) == Ok::<int, Seq<char>>(text::digits_value(s)),
{
    if s.len() > 0 && text::all_digits(s) {
        assert(text::is_digit(s[0]));
        lemma_digits_not_negative(s);
    }
    if s.len() > 0 && text::all_digits(s.skip(1)) {
        lemma_digits_not_negative(s.skip(1));
    }
}

// ---------------------------------------------------------------------------
// Help

/// Help is asked for exactly where `-h` or `--help` stands with no `--` before it.
pub proof fn law_help_is_asked(args: Seq<Seq<char>>, from: int)
    requires
        0 <= from,
    ensures
        cli::help_asked(args, from) <==> exists|k: int|
            #![trigger args[k]]
            from <= k < args.len() && (args[k] == "-h"@ || args[k] == "--help"@) && forall|j: int|
                from <= j < k ==> #[trigger] args[j] != "--"@,
    decreases args.len() - from,
{
    lemma_flags();
    if from < args.len() && args[from] != "--"@ {
        law_help_is_asked(args, from + 1);
        if args[from] == "-h"@ || args[from] == "--help"@ {
            assert(from <= from < args.len());
        }
    }
}

// ---------------------------------------------------------------------------
// A new pull request

/// What an argument of `pr create` is meant to say.
pub enum PrWord {
    Source(Seq<char>),
    Base(Seq<char>),
    Body(Seq<char>),
    Label(Seq<char>),
    ShortLabel(Seq<char>),
    Title(Seq<char>),
}

/// How it is written.
pub open spec fn pr_words(w: PrWord) -> Seq<Seq<char>> {
    match w {
        PrWord::Source(s) => seq!["--source"@, s],
        PrWord::Base(s) => seq!["--base"@, s],
        PrWord::Body(s) => seq!["--body"@, s],
        PrWord::Label(s) => seq!["--label"@, s],
        PrWord::ShortLabel(s) => seq!["-l"@, s],
        PrWord::Title(s) => seq![s],
    }
}

/// How several of them are written, one after the other.
pub open spec fn pr_line(ws: Seq<PrWord>) -> Seq<Seq<char>>
    decreases ws.len(),
{
    if ws.len() == 0 {
        seq![]
    } else {
        pr_line(ws.drop_last()) + pr_words(ws.last())
    }
}

/// The label that is meant, without the white space around it.
pub open spec fn pr_label(w: PrWord) -> Option<Seq<char>> {
    match w {
        PrWord::Label(s) => Some(text::trimmed(s)),
        PrWord::ShortLabel(s) => Some(text::trimmed(s)),
        _ => None,
    }
}

/// The labels that are meant, in their order.
pub open spec fn pr_labels(ws: Seq<PrWord>) -> Seq<Seq<char>>
    decreases ws.len(),
{
    if ws.len() == 0 {
        seq![]
    } else {
        match pr_label(ws.last()) {
            Some(l) => pr_labels(ws.drop_last()).push(l),
            None => pr_labels(ws.drop_last()),
        }
    }
}

/// Can it be written so that it is understood? A label must be more than white space, and
/// a title must not look like an option.
pub open spec fn pr_sayable(w: PrWord) -> bool {
    match w {
        PrWord::Label(s) => text::trimmed(s).len() > 0,
        PrWord::ShortLabel(s) => text::trimmed(s).len() > 0,
        PrWord::Title(s) => !(s.len() > 0 && s[0] == '-'),
        _ => true,
    }
}

/// Can they be written so that they are understood, with one title at most?
pub open spec fn pr_line_sayable(ws: Seq<PrWord>) -> bool {
    &&& forall|i: int| 0 <= i < ws.len() ==> pr_sayable(#[trigger] ws[i])
    &&& forall|i: int, j: int|
        0 <= i < j < ws.len() ==> !(#[trigger] ws[i] is Title && #[trigger] ws[j] is Title)
}

/// Is the last source the one at `i`?
pub open spec fn last_source(ws: Seq<PrWord>, i: int) -> bool {
    0 <= i < ws.len() && ws[i] is Source && forall|j: int|
        i < j < ws.len() ==> !(#[trigger] ws[j] is Source)
}

/// Is the last base the one at `i`?
pub open spec fn last_base(ws: Seq<PrWord>, i: int) -> bool {
    0 <= i < ws.len() && ws[i] is Base && forall|j: int|
        i < j < ws.len() ==> !(#[trigger] ws[j] is Base)
}

/// Is the last description the one at `i`?
pub open spec fn last_body(ws: Seq<PrWord>, i: int) -> bool {
    0 <= i < ws.len() && ws[i] is Body && forall|j: int|
        i < j < ws.len() ==> !(#[trigger] ws[j] is Body)
}

spec fn pr_said(m: cli::NewPrModel, w: PrWord) -> cli::NewPrModel {
    match w {
        PrWord::Source(s) => cli::NewPrModel { source: Some(s), ..m },
        PrWord::Base(s) => cli::NewPrModel { base: Some(s), ..m },
        PrWord::Body(s) => cli::NewPrModel { body: Some(text::trimmed(s)), ..m },
        PrWord::Label(s) => cli::NewPrModel { labels: m.labels.push(text::trimmed(s)), ..m },
        PrWord::ShortLabel(s) => cli::NewPrModel { labels: m.labels.push(text::trimmed(s)), ..m },
        PrWord::Title(s) => cli::NewPrModel { title: Some(s), ..m },
    }
}

spec fn pr_said_all(ws: Seq<PrWord>) -> cli::NewPrModel
    decreases ws.len(),
{
    if ws.len() == 0 {
        cli::NewPrModel { source: None, base: None, title: None, body: None, labels: seq![] }
    } else {
        pr_said(pr_said_all(ws.drop_last()), ws.last())
    }
}

proof fn lemma_pr_sayable_prefix(ws: Seq<PrWord>)
    requires
        ws.len() > 0,
        pr_line_sayable(ws),
    ensures
        pr_line_sayable(ws.drop_last()),
        pr_sayable(ws.last()),
        ws.last() is Title ==> pr_said_all(ws.drop_last()).title is None,
{
    let a = ws.drop_last();
    assert(forall|i: int| 0 <= i < a.len() ==> a[i] == ws[i]);
    if ws.last() is Title {
        assert(forall|i: int| 0 <= i < a.len() ==> !(#[trigger] a[i] is Title));
        lemma_pr_no_title(a);
    }
}

proof fn lemma_pr_no_title(ws: Seq<PrWord>)
    requires
        forall|i: int| 0 <= i < ws.len() ==> !(#[trigger] ws[i] is Title),
    ensures
        pr_said_all(ws).title is None,
    decreases ws.len(),
{
    if ws.len() > 0 {
        let a = ws.drop_last();
        assert(forall|i: int| 0 <= i < a.len() ==> a[i] == ws[i]);
        lemma_pr_no_title(a);
        assert(!(ws[ws.len() - 1] is Title));
    }
}

/// One word read, at its place among the arguments.
proof fn lemma_pr_step(args: Seq<Seq<char>>, i: int, m: cli::NewPrModel, w: PrWord)
    requires
        0 <= i,
        i + pr_words(w).len() <= args.len(),
        args.subrange(i, i + pr_words(w).len()) == pr_words(w),
        pr_sayable(w),
        w is Title ==> m.title is None,
    ensures
        cli::pr_args_from(args, i, m) == cli::pr_args_from(
            args,
            i + pr_words(w).len(),
            pr_said(m, w),
        ),
{
    lemma_flags();
    let part = args.subrange(i, i + pr_words(w).len());
    assert(part[0] == args[i]);
    assert(pr_words(w)[0] == args[i]);
    if !(w is Title) {
        assert(part[1] == args[i + 1]);
        assert(pr_words(w)[1] == args[i + 1]);
    }
}

proof fn lemma_pr_line(args: Seq<Seq<char>>, ws: Seq<PrWord>)
    requires
        pr_line(ws).len() <= args.len(),
        args.take(pr_line(ws).len() as int) == pr_line(ws),
        pr_line_sayable(ws),
    ensures
        cli::pr_args_from(args, 0, cli::no_pr_args()) == cli::pr_args_from(
            args,
            pr_line(ws).len() as int,
            pr_said_all(ws),
        ),
    decreases ws.len(),
{
    if ws.len() == 0 {
        assert(cli::no_pr_args() =~= pr_said_all(ws));
    } else {
        let a = ws.drop_last();
        let w = ws.last();
        let n = pr_line(a).len() as int;
        lemma_pr_sayable_prefix(ws);
        assert(args.take(n) =~= pr_line(a)) by {
            assert(forall|k: int| 0 <= k < n ==> args[k] == pr_line(ws)[k]);
        }
        lemma_pr_line(args, a);
        assert(args.subrange(n, n + pr_words(w).len()) =~= pr_words(w)) by {
            assert(forall|k: int|
                0 <= k < pr_line(ws).len() ==> args.take(pr_line(ws).len() as int)[k] == args[k]);
        }
        lemma_pr_step(args, n, pr_said_all(a), w);
    }
}

proof fn lemma_pr_source(ws: Seq<PrWord>, i: int)
    requires
        last_source(ws, i),
    ensures
        pr_said_all(ws).source == Some(ws[i]->Source_0),
    decreases ws.len(),
{
    let a = ws.drop_last();
    let n = ws.len() - 1;
    assert(ws[n] == ws.last());
    if i < n {
        assert(!(ws[n] is Source));
        assert(a[i] == ws[i]);
        assert forall|j: int| i < j < a.len() implies !(#[trigger] a[j] is Source) by {
            assert(a[j] == ws[j]);
        }
        lemma_pr_source(a, i);
    }
}

proof fn lemma_pr_base(ws: Seq<PrWord>, i: int)
    requires
        last_base(ws, i),
    ensures
        pr_said_all(ws).base == Some(ws[i]->Base_0),
    decreases ws.len(),
{
    let a = ws.drop_last();
    let n = ws.len() - 1;
    assert(ws[n] == ws.last());
    if i < n {
        assert(!(ws[n] is Base));
        assert(a[i] == ws[i]);
        assert forall|j: int| i < j < a.len() implies !(#[trigger] a[j] is Base) by {
            assert(a[j] == ws[j]);
        }
        lemma_pr_base(a, i);
    }
}

proof fn lemma_pr_body(ws: Seq<PrWord>, i: int)
    requires
        last_body(ws, i),
    ensures
        pr_said_all(ws).body == Some(text::trimmed(ws[i]->Body_0)),
    decreases ws.len(),
{
    let a = ws.drop_last();
    let n = ws.len() - 1;
    assert(ws[n] == ws.last());
    if i < n {
        assert(!(ws[n] is Body));
        assert(a[i] == ws[i]);
        assert forall|j: int| i < j < a.len() implies !(#[trigger] a[j] is Body) by {
            assert(a[j] == ws[j]);
        }
        lemma_pr_body(a, i);
    }
}

proof fn lemma_pr_title(ws: Seq<PrWord>, i: int)
    requires
        0 <= i < ws.len(),
        ws[i] is Title,
        forall|j: int| i < j < ws.len() ==> !(#[trigger] ws[j] is Title),
    ensures
        pr_said_all(ws).title == Some(ws[i]->Title_0),
    decreases ws.len(),
{
    let a = ws.drop_last();
    let n = ws.len() - 1;
    assert(ws[n] == ws.last());
    if i < n {
        assert(!(ws[n] is Title));
        assert(a[i] == ws[i]);
        assert forall|j: int| i < j < a.len() implies !(#[trigger] a[j] is Title) by {
            assert(a[j] == ws[j]);
        }
        lemma_pr_title(a, i);
    }
}

proof fn lemma_pr_labels(ws: Seq<PrWord>)
    ensures
        pr_said_all(ws).labels == pr_labels(ws),
    decreases ws.len(),
{
    if ws.len() > 0 {
        lemma_pr_labels(ws.drop_last());
    }
}

proof fn lemma_pr_no_body(ws: Seq<PrWord>)
    requires
        forall|i: int| 0 <= i < ws.len() ==> !(#[trigger] ws[i] is Body),
    ensures
        pr_said_all(ws).body is None,
    decreases ws.len(),
{
    if ws.len() > 0 {
        let a = ws.drop_last();
        assert(forall|i: int| 0 <= i < a.len() ==> a[i] == ws[i]);
        lemma_pr_no_body(a);
        assert(!(ws[ws.len() - 1] is Body));
    }
}

/// A pull request is asked for as it is written, in whichever order: the last source and
/// the last base count, the one title is kept as it is, the last description counts
/// without the white space around it, and every label counts, trimmed, in order.
pub proof fn law_pr_create_reads_back(ws: Seq<PrWord>, source: int, base: int, title: int)
    requires
        pr_line_sayable(ws),
        last_source(ws, source),
        last_base(ws, base),
        0 <= title < ws.len(),
        ws[title] is Title,
        text::trimmed(ws[title]->Title_0).len() > 0,
    ensures
        match cli::new_pr_of(pr_line(ws)) {
            Err(_) => false,
            Ok(m) => {
                &&& m.source == Some(ws[source]->Source_0)
                &&& m.base == Some(ws[base]->Base_0)
                &&& m.title == Some(ws[title]->Title_0)
                &&& m.labels == pr_labels(ws)
                &&& forall|i: int|
                    last_body(ws, i) && text::trimmed((#[trigger] ws[i])->Body_0).len() > 0
                        ==> m.body == Some(text::trimmed(ws[i]->Body_0))
                &&& forall|i: int|
                    last_body(ws, i) && text::trimmed((#[trigger] ws[i])->Body_0).len() == 0
                        ==> m.body is None
                &&& (forall|i: int| 0 <= i < ws.len() ==> !(#[trigger] ws[i] is Body))
                    ==> m.body is None
            },
        },
{
    let args = pr_line(ws);
    assert(args.take(args.len() as int) =~= args);
    lemma_pr_line(args, ws);
    lemma_pr_labels(ws);
    lemma_pr_source(ws, source);
    lemma_pr_base(ws, base);
    lemma_pr_title(ws, title);
    assert forall|i: int| last_body(ws, i) implies pr_said_all(ws).body == Some(
        text::trimmed((#[trigger] ws[i])->Body_0),
    ) by {
        lemma_pr_body(ws, i);
    }
    if forall|i: int| 0 <= i < ws.len() ==> !(#[trigger] ws[i] is Body) {
        lemma_pr_no_body(ws);
    }
}

/// Without a source, a base or a title no pull request is asked for.
pub proof fn law_pr_create_needs_its_parts(ws: Seq<PrWord>)
    requires
        pr_line_sayable(ws),
        (forall|i: int| 0 <= i < ws.len() ==> !(#[trigger] ws[i] is Source)) || (forall|i: int|
            0 <= i < ws.len() ==> !(#[trigger] ws[i] is Base)) || (forall|i: int|
            0 <= i < ws.len() ==> !(#[trigger] ws[i] is Title)),
    ensures
        cli::new_pr_of(pr_line(ws)) is Err,
{
    let args = pr_line(ws);
    assert(args.take(args.len() as int) =~= args);
    lemma_pr_line(args, ws);
    lemma_pr_missing(ws);
}

proof fn lemma_pr_missing(ws: Seq<PrWord>)
    ensures
        (forall|i: int| 0 <= i < ws.len() ==> !(#[trigger] ws[i] is Source)) ==> pr_said_all(
            ws,
        ).source is None,
        (forall|i: int| 0 <= i < ws.len() ==> !(#[trigger] ws[i] is Base)) ==> pr_said_all(
            ws,
        ).base is None,
        (forall|i: int| 0 <= i < ws.len() ==> !(#[trigger] ws[i] is Title)) ==> pr_said_all(
            ws,
        ).title is None,
    decreases ws.len(),
{
    if ws.len() > 0 {
        let a = ws.drop_last();
        let n = ws.len() - 1;
        lemma_pr_missing(a);
        assert(forall|i: int| 0 <= i < a.len() ==> a[i] == ws[i]);
        assert(ws[n] == ws.last());
        if forall|i: int| 0 <= i < ws.len() ==> !(#[trigger] ws[i] is Source) {
            assert(forall|i: int| 0 <= i < a.len() ==> !(#[trigger] a[i] is Source));
            assert(!(ws[n] is Source));
        }
        if forall|i: int| 0 <= i < ws.len() ==> !(#[trigger] ws[i] is Base) {
            assert(forall|i: int| 0 <= i < a.len() ==> !(#[trigger] a[i] is Base));
            assert(!(ws[n] is Base));
        }
        if forall|i: int| 0 <= i < ws.len() ==> !(#[trigger] ws[i] is Title) {
            assert(forall|i: int| 0 <= i < a.len() ==> !(#[trigger] a[i] is Title));
            assert(!(ws[n] is Title));
        }
    }
}

/// Arguments that were read to their end, without a `--`, are read the same where more
/// follow.
proof fn lemma_pr_more(args: Seq<Seq<char>>, tail: Seq<Seq<char>>, i: int, m: cli::NewPrModel)
    requires
        0 <= i <= args.len(),
        !args.contains("--"@),
        cli::pr_args_from(args, i, m) is Ok,
    ensures
        cli::pr_args_from(args + tail, i, m) == cli::pr_args_from(
            args + tail,
            args.len() as int,
            cli::pr_args_from(args, i, m)->Ok_0,
        ),
    decreases args.len() - i,
{
    if i < args.len() {
        lemma_flags();
        let all = args + tail;
        assert(all[i] == args[i]);
        assert(args[i] != "--"@);
        if i + 1 < args.len() {
            assert(all[i + 1] == args[i + 1]);
        }
        if args[i] == "--source"@ {
            lemma_pr_more(args, tail, i + 2, cli::NewPrModel { source: Some(args[i + 1]), ..m });
        } else if args[i] == "--base"@ {
            lemma_pr_more(args, tail, i + 2, cli::NewPrModel { base: Some(args[i + 1]), ..m });
        } else if args[i] == "--body"@ {
            lemma_pr_more(
                args,
                tail,
                i + 2,
                cli::NewPrModel { body: Some(text::trimmed(args[i + 1])), ..m },
            );
        } else if cli::is_label_flag(args[i]) {
            assert(cli::label_at(all, i + 1) == cli::label_at(args, i + 1));
            lemma_pr_more(
                args,
                tail,
                i + 2,
                cli::NewPrModel { labels: m.labels.push(text::trimmed(args[i + 1])), ..m },
            );
        } else {
            lemma_pr_more(args, tail, i + 1, cli::NewPrModel { title: Some(args[i]), ..m });
        }
    }
}

/// A label behind accepted arguments is one more label, at the end, and changes nothing
/// else.
pub proof fn law_label_added(args: Seq<Seq<char>>, flag: Seq<char>, x: Seq<char>)
    requires
        !args.contains("--"@),
        cli::new_pr_of(args) is Ok,
        flag == "--label"@ || flag == "-l"@,
        text::trimmed(x).len() > 0,
    ensures
        ({
            let m = cli::new_pr_of(args)->Ok_0;
            cli::new_pr_of(args + seq![flag, x]) == Ok::<cli::NewPrModel, Seq<char>>(
                cli::NewPrModel { labels: m.labels.push(text::trimmed(x)), ..m },
            )
        }),
{
    lemma_flags();
    let tail = seq![flag, x];
    let all = args + tail;
    let n = args.len() as int;
    lemma_pr_more(args, tail, 0, cli::no_pr_args());
    assert(all[n] == tail[0] && all[n + 1] == tail[1]);
    let m = cli::pr_args_from(args, 0, cli::no_pr_args())->Ok_0;
    assert(cli::label_at(all, n + 1) == Ok::<Seq<char>, Seq<char>>(text::trimmed(x)));
    let more = cli::NewPrModel { labels: m.labels.push(text::trimmed(x)), ..m };
    assert(cli::pr_args_from(all, n, m) == cli::pr_args_from(all, n + 2, more));
    assert(cli::pr_args_from(all, n + 2, more) == Ok::<cli::NewPrModel, Seq<char>>(more));
}

/// A source, a base or a description behind accepted arguments takes the place of the one
/// before, and changes nothing else.
pub proof fn law_later_option_counts(args: Seq<Seq<char>>, x: Seq<char>)
    requires
        !args.contains("--"@),
        cli::new_pr_of(args) is Ok,
    ensures
        ({
            let m = cli::new_pr_of(args)->Ok_0;
            &&& cli::new_pr_of(args + seq!["--source"@, x]) == Ok::<cli::NewPrModel, Seq<char>>(
                cli::NewPrModel { source: Some(x), ..m },
            )
            &&& cli::new_pr_of(args + seq!["--base"@, x]) == Ok::<cli::NewPrModel, Seq<char>>(
                cli::NewPrModel { base: Some(x), ..m },
            )
            &&& cli::new_pr_of(args + seq!["--body"@, x]) == Ok::<cli::NewPrModel, Seq<char>>(
                cli::NewPrModel {
                    body: if text::trimmed(x).len() > 0 {
                        Some(text::trimmed(x))
                    } else {
                        None
                    },
                    ..m
                },
            )
        }),
{
    lemma_flags();
    let n = args.len() as int;
    let m = cli::pr_args_from(args, 0, cli::no_pr_args())->Ok_0;
    let t1 = seq!["--source"@, x];
    lemma_pr_more(args, t1, 0, cli::no_pr_args());
    assert((args + t1)[n] == t1[0] && (args + t1)[n + 1] == t1[1]);
    let m1 = cli::NewPrModel { source: Some(x), ..m };
    assert(cli::pr_args_from(args + t1, n, m) == cli::pr_args_from(args + t1, n + 2, m1));
    assert(cli::pr_args_from(args + t1, n + 2, m1) == Ok::<cli::NewPrModel, Seq<char>>(m1));
    let t2 = seq!["--base"@, x];
    lemma_pr_more(args, t2, 0, cli::no_pr_args());
    assert((args + t2)[n] == t2[0] && (args + t2)[n + 1] == t2[1]);
    let m2 = cli::NewPrModel { base: Some(x), ..m };
    assert(cli::pr_args_from(args + t2, n, m) == cli::pr_args_from(args + t2, n + 2, m2));
    assert(cli::pr_args_from(args + t2, n + 2, m2) == Ok::<cli::NewPrModel, Seq<char>>(m2));
    let t3 = seq!["--body"@, x];
    lemma_pr_more(args, t3, 0, cli::no_pr_args());
    assert((args + t3)[n] == t3[0] && (args + t3)[n + 1] == t3[1]);
    let m3 = cli::NewPrModel { body: Some(text::trimmed(x)), ..m };
    assert(cli::pr_args_from(args + t3, n, m) == cli::pr_args_from(args + t3, n + 2, m3));
    assert(cli::pr_args_from(args + t3, n + 2, m3) == Ok::<cli::NewPrModel, Seq<char>>(m3));
}

/// Behind accepted arguments a second title, an unknown option and an option without its
/// value are refused.
pub proof fn law_pr_create_refuses(args: Seq<Seq<char>>, x: Seq<char>)
    requires
        !args.contains("--"@),
        cli::new_pr_of(args) is Ok,
    ensures
        !(x.len() > 0 && x[0] == '-') ==> cli::new_pr_of(args.push(x)) is Err,
        !(x.len() > 0 && x[0] == '-') ==> cli::new_pr_of(args + seq!["--"@, x]) is Err,
        x.len() > 0 && x[0] == '-' && x != "--"@ ==> cli::new_pr_of(args.push(x)) is Err,
        x.len() > 0 && x[0] == '-' && x != "--"@ && x != "--source"@ && x != "--base"@ && x
            != "--body"@ && x != "--label"@ && x != "-l"@ ==> cli::new_pr_of(args.push(x)) == Err::<
            cli::NewPrModel,
            Seq<char>,
        >("unknown option '"@ + x + "'"@),
        x == "--"@ ==> cli::new_pr_of(args.push(x)) == cli::new_pr_of(args),
{
    lemma_flags();
    let n = args.len() as int;
    let t = seq![x];
    lemma_pr_more(args, t, 0, cli::no_pr_args());
    assert(args + t =~= args.push(x));
    assert(args.push(x)[n] == x);
    let u = seq!["--"@, x];
    lemma_pr_more(args, u, 0, cli::no_pr_args());
    assert((args + u)[n] == u[0] && (args + u)[n + 1] == u[1]);
}

/// The title may stand behind a `--`, where it may also look like an option.
pub proof fn law_title_behind_dashes(args: Seq<Seq<char>>, plain: Seq<char>, title: Seq<char>)
    requires
        !args.contains("--"@),
        cli::pr_args_from(args, 0, cli::no_pr_args()) is Ok,
        !(plain.len() > 0 && plain[0] == '-'),
        cli::new_pr_of(args.push(plain)) is Ok,
        text::trimmed(title).len() > 0,
    ensures
        cli::new_pr_of(args + seq!["--"@, title]) == Ok::<cli::NewPrModel, Seq<char>>(
            cli::NewPrModel {
                title: Some(title),
                ..cli::new_pr_of(args.push(plain))->Ok_0
            },
        ),
{
    lemma_flags();
    let n = args.len() as int;
    let m = cli::pr_args_from(args, 0, cli::no_pr_args())->Ok_0;
    let t = seq![plain];
    lemma_pr_more(args, t, 0, cli::no_pr_args());
    assert(args + t =~= args.push(plain));
    assert(args.push(plain)[n] == plain);
    let m1 = cli::NewPrModel { title: Some(plain), ..m };
    assert(cli::pr_args_from(args.push(plain), n, m) == cli::pr_args_from(
        args.push(plain),
        n + 1,
        m1,
    ));
    let u = seq!["--"@, title];
    lemma_pr_more(args, u, 0, cli::no_pr_args());
    assert((args + u)[n] == u[0] && (args + u)[n + 1] == u[1]);
    assert(cli::pr_args_from(args + u, n, m) == Ok::<cli::NewPrModel, Seq<char>>(
        cli::NewPrModel { title: Some(title), ..m },
    ));
}

proof fn lemma_pr_line_front(w: PrWord, ws: Seq<PrWord>)
    ensures
        pr_line(seq![w] + ws) == pr_words(w) + pr_line(ws),
    decreases ws.len(),
{
    let all = seq![w] + ws;
    if ws.len() == 0 {
        assert(all.drop_last() =~= ws);
        assert(all.last() == w);
        assert(pr_line(ws) =~= seq![]);
        assert(pr_line(all) =~= pr_words(w) + pr_line(ws));
    } else {
        lemma_pr_line_front(w, ws.drop_last());
        assert(all.drop_last() =~= seq![w] + ws.drop_last());
        assert(all.last() == ws.last());
        assert(pr_line(all) =~= pr_words(w) + pr_line(ws));
    }
}

proof fn lemma_pr_spelled(args: Seq<Seq<char>>, i: int, m: cli::NewPrModel) -> (ws: Seq<PrWord>)
    requires
        0 <= i <= args.len(),
        !args.contains("--"@),
        cli::pr_args_from(args, i, m) is Ok,
    ensures
        pr_line(ws) == args.skip(i),
        pr_line_sayable(ws),
        m.title is Some ==> forall|k: int| 0 <= k < ws.len() ==> !(#[trigger] ws[k] is Title),
    decreases args.len() - i,
{
    if i == args.len() {
        assert(args.skip(i) =~= seq![]);
        seq![]
    } else {
        lemma_flags();
        assert(args[i] != "--"@);
        let w = if args[i] == "--source"@ {
            PrWord::Source(args[i + 1])
        } else if args[i] == "--base"@ {
            PrWord::Base(args[i + 1])
        } else if args[i] == "--body"@ {
            PrWord::Body(args[i + 1])
        } else if args[i] == "--label"@ {
            PrWord::Label(args[i + 1])
        } else if args[i] == "-l"@ {
            PrWord::ShortLabel(args[i + 1])
        } else {
            PrWord::Title(args[i])
        };
        let n = i + pr_words(w).len();
        assert(n <= args.len());
        assert(pr_sayable(w));
        assert(cli::pr_args_from(args, i, m) == cli::pr_args_from(args, n, pr_said(m, w)));
        let rest = lemma_pr_spelled(args, n, pr_said(m, w));
        let ws = seq![w] + rest;
        lemma_pr_line_front(w, rest);
        assert(pr_words(w) + args.skip(n) =~= args.skip(i));
        assert forall|k: int| 0 <= k < ws.len() implies pr_sayable(#[trigger] ws[k]) by {
            if k > 0 {
                assert(ws[k] == rest[k - 1]);
            }
        }
        assert forall|a: int, b: int| 0 <= a < b < ws.len() implies !(#[trigger] ws[a] is Title
            && #[trigger] ws[b] is Title) by {
            assert(ws[b] == rest[b - 1]);
            if a > 0 {
                assert(ws[a] == rest[a - 1]);
            }
        }
        if m.title is Some {
            assert forall|k: int| 0 <= k < ws.len() implies !(#[trigger] ws[k] is Title) by {
                if k > 0 {
                    assert(ws[k] == rest[k - 1]);
                }
            }
        }
        ws
    }
}

/// Nothing but what is written as it should be is accepted.
pub proof fn law_accepted_pr_is_sayable(args: Seq<Seq<char>>) -> (ws: Seq<PrWord>)
    requires
        !args.contains("--"@),
        cli::new_pr_of(args) is Ok,
    ensures
        pr_line(ws) == args,
        pr_line_sayable(ws),
{
    let ws = lemma_pr_spelled(args, 0, cli::no_pr_args());
    assert(args.skip(0) =~= args);
    ws
}

// ---------------------------------------------------------------------------
// A review

/// What an argument of `pr review`, behind the number, is meant to say.
pub enum ReviewWord {
    Approve,
    Reject,
    File(Seq<char>),
    Line(Seq<char>),
    Commit(Seq<char>),
    Other(Seq<char>),
}

/// How it is written.
pub open spec fn review_words(w: ReviewWord) -> Seq<Seq<char>> {
    match w {
        ReviewWord::Approve => seq!["--approve"@],
        ReviewWord::Reject => seq!["--reject"@],
        ReviewWord::File(s) => seq!["--file"@, s],
        ReviewWord::Line(s) => seq!["--line"@, s],
        ReviewWord::Commit(s) => seq!["--commit"@, s],
        ReviewWord::Other(s) => seq![s],
    }
}

/// How several of them are written, behind the number.
pub open spec fn review_line(number: Seq<char>, ws: Seq<ReviewWord>) -> Seq<Seq<char>>
    decreases ws.len(),
{
    if ws.len() == 0 {
        seq![number]
    } else {
        review_line(number, ws.drop_last()) + review_words(ws.last())
    }
}

/// Is it a decision?
pub open spec fn is_verdict(w: ReviewWord) -> bool {
    w is Approve || w is Reject
}

/// Do all words that are no options count for nothing, because they do not look like one?
pub open spec fn review_sayable(ws: Seq<ReviewWord>) -> bool {
    forall|i: int|
        0 <= i < ws.len() ==> (#[trigger] ws[i] matches ReviewWord::Other(s) ==> !(s.len() > 0
            && s[0] == '-'))
}

spec fn review_said(m: cli::ReviewModel, w: ReviewWord) -> cli::ReviewModel {
    match w {
        ReviewWord::Approve => cli::ReviewModel { decision: Some("approve"@), ..m },
        ReviewWord::Reject => cli::ReviewModel { decision: Some("reject"@), ..m },
        ReviewWord::File(s) => cli::ReviewModel { file: Some(s), ..m },
        ReviewWord::Line(s) => cli::ReviewModel { line: Some(s), ..m },
        ReviewWord::Commit(s) => cli::ReviewModel { commit: Some(s), ..m },
        ReviewWord::Other(s) => m,
    }
}

spec fn review_said_all(ws: Seq<ReviewWord>) -> cli::ReviewModel
    decreases ws.len(),
{
    if ws.len() == 0 {
        cli::ReviewModel { decision: None, file: None, line: None, commit: None }
    } else {
        review_said(review_said_all(ws.drop_last()), ws.last())
    }
}

proof fn lemma_review_line(args: Seq<Seq<char>>, number: Seq<char>, ws: Seq<ReviewWord>)
    requires
        review_line(number, ws).len() <= args.len(),
        args.take(review_line(number, ws).len() as int) == review_line(number, ws),
        review_sayable(ws),
    ensures
        review_line(number, ws).len() >= 1,
        args[0] == number,
        cli::review_args_from(
            args,
            1,
            cli::ReviewModel { decision: None, file: None, line: None, commit: None },
        ) == cli::review_args_from(
            args,
            review_line(number, ws).len() as int,
            review_said_all(ws),
        ),
    decreases ws.len(),
{
    let whole = review_line(number, ws);
    if ws.len() == 0 {
        assert(args.take(1)[0] == args[0]);
    } else {
        lemma_flags();
        let a = ws.drop_last();
        let w = ws.last();
        let n = review_line(number, a).len() as int;
        assert(forall|k: int| 0 <= k < whole.len() ==> args.take(whole.len() as int)[k] == args[k]);
        assert(args.take(n) =~= review_line(number, a));
        assert(forall|k: int| 0 <= k < a.len() ==> a[k] == ws[k]);
        assert(ws[ws.len() - 1] == w);
        lemma_review_line(args, number, a);
        assert(args[n] == review_words(w)[0]);
        if w is File || w is Line || w is Commit {
            assert(args[n + 1] == review_words(w)[1]);
        }
        assert(cli::review_args_from(args, n, review_said_all(a)) == cli::review_args_from(
            args,
            n + review_words(w).len(),
            review_said(review_said_all(a), w),
        ));
    }
}

proof fn lemma_review_verdict(ws: Seq<ReviewWord>, i: int)
    requires
        0 <= i < ws.len(),
        is_verdict(ws[i]),
        forall|j: int| i < j < ws.len() ==> !is_verdict(#[trigger] ws[j]),
    ensures
        review_said_all(ws).decision == Some(
            if ws[i] is Approve {
                "approve"@
            } else {
                "reject"@
            },
        ),
    decreases ws.len(),
{
    let n = ws.len() - 1;
    let a = ws.drop_last();
    assert(ws[n] == ws.last());
    if i < n {
        assert(!is_verdict(ws[n]));
        assert(forall|j: int| 0 <= j < a.len() ==> a[j] == ws[j]);
        lemma_review_verdict(a, i);
    }
}

/// Is the last file the one at `i`?
pub open spec fn last_file(ws: Seq<ReviewWord>, i: int) -> bool {
    0 <= i < ws.len() && ws[i] is File && forall|j: int|
        i < j < ws.len() ==> !(#[trigger] ws[j] is File)
}

proof fn lemma_review_file(ws: Seq<ReviewWord>)
    ensures
        forall|i: int|
            last_file(ws, i) ==> review_said_all(ws).file == Some((#[trigger] ws[i])->File_0),
        (forall|i: int| 0 <= i < ws.len() ==> !(#[trigger] ws[i] is File)) ==> review_said_all(
            ws,
        ).file is None,
    decreases ws.len(),
{
    if ws.len() > 0 {
        let n = ws.len() - 1;
        let a = ws.drop_last();
        lemma_review_file(a);
        assert(ws[n] == ws.last());
        assert(forall|j: int| 0 <= j < a.len() ==> a[j] == ws[j]);
        assert forall|i: int| last_file(ws, i) implies review_said_all(ws).file == Some(
            (#[trigger] ws[i])->File_0,
        ) by {
            if i < n {
                assert(!(ws[n] is File));
                assert(last_file(a, i));
                assert(a[i] == ws[i]);
            }
        }
        if forall|i: int| 0 <= i < ws.len() ==> !(#[trigger] ws[i] is File) {
            assert(!(ws[n] is File));
            assert(forall|i: int| 0 <= i < a.len() ==> !(#[trigger] a[i] is File));
        }
    }
}

/// Is the last line the one at `i`?
pub open spec fn last_line(ws: Seq<ReviewWord>, i: int) -> bool {
    0 <= i < ws.len() && ws[i] is Line && forall|j: int|
        i < j < ws.len() ==> !(#[trigger] ws[j] is Line)
}

proof fn lemma_review_line_named(ws: Seq<ReviewWord>)
    ensures
        forall|i: int|
            last_line(ws, i) ==> review_said_all(ws).line == Some((#[trigger] ws[i])->Line_0),
        (forall|i: int| 0 <= i < ws.len() ==> !(#[trigger] ws[i] is Line)) ==> review_said_all(
            ws,
        ).line is None,
    decreases ws.len(),
{
    if ws.len() > 0 {
        let n = ws.len() - 1;
        let a = ws.drop_last();
        lemma_review_line_named(a);
        assert(ws[n] == ws.last());
        assert(forall|j: int| 0 <= j < a.len() ==> a[j] == ws[j]);
        assert forall|i: int| last_line(ws, i) implies review_said_all(ws).line == Some(
            (#[trigger] ws[i])->Line_0,
        ) by {
            if i < n {
                assert(!(ws[n] is Line));
                assert(last_line(a, i));
                assert(a[i] == ws[i]);
            }
        }
        if forall|i: int| 0 <= i < ws.len() ==> !(#[trigger] ws[i] is Line) {
            assert(!(ws[n] is Line));
            assert(forall|i: int| 0 <= i < a.len() ==> !(#[trigger] a[i] is Line));
        }
    }
}

/// Is the last commit the one at `i`?
pub open spec fn last_commit(ws: Seq<ReviewWord>, i: int) -> bool {
    0 <= i < ws.len() && ws[i] is Commit && forall|j: int|
        i < j < ws.len() ==> !(#[trigger] ws[j] is Commit)
}

proof fn lemma_review_commit(ws: Seq<ReviewWord>)
    ensures
        forall|i: int|
            last_commit(ws, i) ==> review_said_all(ws).commit == Some((#[trigger] ws[i])->Commit_0),
        (forall|i: int| 0 <= i < ws.len() ==> !(#[trigger] ws[i] is Commit)) ==> review_said_all(
            ws,
        ).commit is None,
    decreases ws.len(),
{
    if ws.len() > 0 {
        let n = ws.len() - 1;
        let a = ws.drop_last();
        lemma_review_commit(a);
        assert(ws[n] == ws.last());
        assert(forall|j: int| 0 <= j < a.len() ==> a[j] == ws[j]);
        assert forall|i: int| last_commit(ws, i) implies review_said_all(ws).commit == Some(
            (#[trigger] ws[i])->Commit_0,
        ) by {
            if i < n {
                assert(!(ws[n] is Commit));
                assert(last_commit(a, i));
                assert(a[i] == ws[i]);
            }
        }
        if forall|i: int| 0 <= i < ws.len() ==> !(#[trigger] ws[i] is Commit) {
            assert(!(ws[n] is Commit));
            assert(forall|i: int| 0 <= i < a.len() ==> !(#[trigger] a[i] is Commit));
        }
    }
}

/// A review is read as it is written, in whichever order: the number is the first
/// argument, the last decision counts, and the file, the line and the commit are each the
/// last one that is named behind its own flag.
pub proof fn law_review_reads_back(n: nat, ws: Seq<ReviewWord>, verdict: int)
    requires
        1 <= n <= u64::MAX,
        review_sayable(ws),
        0 <= verdict < ws.len(),
        is_verdict(ws[verdict]),
        forall|j: int| verdict < j < ws.len() ==> !is_verdict(#[trigger] ws[j]),
    ensures
        match cli::review_of(review_line(text::decimal(n), ws)) {
            Err(_) => false,
            Ok((id, m)) => {
                &&& id == n
                &&& m.decision == Some(
                    if ws[verdict] is Approve {
                        "approve"@
                    } else {
                        "reject"@
                    },
                )
                &&& forall|i: int| last_file(ws, i) ==> m.file == Some((#[trigger] ws[i])->File_0)
                &&& forall|i: int| last_line(ws, i) ==> m.line == Some((#[trigger] ws[i])->Line_0)
                &&& forall|i: int|
                    last_commit(ws, i) ==> m.commit == Some((#[trigger] ws[i])->Commit_0)
                &&& (forall|i: int| 0 <= i < ws.len() ==> !(#[trigger] ws[i] is File))
                    ==> m.file is None
                &&& (forall|i: int| 0 <= i < ws.len() ==> !(#[trigger] ws[i] is Line))
                    ==> m.line is None
                &&& (forall|i: int| 0 <= i < ws.len() ==> !(#[trigger] ws[i] is Commit))
                    ==> m.commit is None
            },
        },
{
    let args = review_line(text::decimal(n), ws);
    assert(args.take(args.len() as int) =~= args);
    lemma_review_line(args, text::decimal(n), ws);
    law_number_reads_back(n);
    lemma_review_verdict(ws, verdict);
    lemma_review_file(ws);
    lemma_review_line_named(ws);
    lemma_review_commit(ws);
}

/// An inline review is stored as it is asked for: the file under `file`, the line under
/// `line`, the commit under `commit`, and the decision of the flag.
pub proof fn law_inline_review_is_stored(
    n: nat,
    approve: bool,
    f: Seq<char>,
    l: Seq<char>,
    c: Seq<char>,
)
    requires
        1 <= n <= u64::MAX,
    ensures
        ({
            let flag = if approve {
                "--approve"@
            } else {
                "--reject"@
            };
            let args = seq![
                text::decimal(n),
                flag,
                "--file"@,
                f,
                "--line"@,
                l,
                "--commit"@,
                c,
            ];
            match cli::review_of(args) {
                Err(_) => false,
                Ok((id, m)) => {
                    let body = records::review(m.decision.unwrap(), m.file, m.line, m.commit);
                    &&& id == n
                    &&& event::text_field(body, "decision"@) == Some(
                        if approve {
                            "approve"@
                        } else {
                            "reject"@
                        },
                    )
                    &&& event::text_field(body, "file"@) == Some(f)
                    &&& event::text_field(body, "line"@) == Some(l)
                    &&& event::text_field(body, "commit"@) == Some(c)
                },
            }
        }),
{
    let flag = if approve {
        "--approve"@
    } else {
        "--reject"@
    };
    let args = seq![text::decimal(n), flag, "--file"@, f, "--line"@, l, "--commit"@, c];
    let verdict = if approve {
        ReviewWord::Approve
    } else {
        ReviewWord::Reject
    };
    let ws = seq![verdict, ReviewWord::File(f), ReviewWord::Line(l), ReviewWord::Commit(c)];
    assert(args =~= review_line(text::decimal(n), ws)) by {
        let w3 = ws.drop_last();
        let w2 = w3.drop_last();
        let w1 = w2.drop_last();
        let w0 = w1.drop_last();
        assert(ws.last() == ReviewWord::Commit(c));
        assert(w3.last() == ReviewWord::Line(l));
        assert(w2.last() == ReviewWord::File(f));
        assert(w1.last() == verdict);
        assert(w0.len() == 0);
        assert(review_line(text::decimal(n), w0) =~= seq![text::decimal(n)]);
        assert(review_line(text::decimal(n), w1) =~= seq![text::decimal(n), flag]);
        assert(review_line(text::decimal(n), w2) =~= seq![text::decimal(n), flag, "--file"@, f]);
        assert(review_line(text::decimal(n), w3) =~= seq![
            text::decimal(n),
            flag,
            "--file"@,
            f,
            "--line"@,
            l,
        ]);
    }
    assert(is_verdict(ws[0]));
    law_review_reads_back(n, ws, 0);
    assert(ws[1] == ReviewWord::File(f) && last_file(ws, 1));
    assert(ws[2] == ReviewWord::Line(l) && last_line(ws, 2));
    assert(ws[3] == ReviewWord::Commit(c) && last_commit(ws, 3));
    let m = cli::review_of(args)->Ok_0.1;
    records::law_review_body_holds(m.decision.unwrap(), m.file, m.line, m.commit);
}

/// A review without a decision is refused, and so is one with an option that is unknown or
/// lacks its value.
pub proof fn law_review_refuses(n: nat, ws: Seq<ReviewWord>, x: Seq<char>)
    requires
        1 <= n <= u64::MAX,
        review_sayable(ws),
    ensures
        (forall|j: int| 0 <= j < ws.len() ==> !is_verdict(#[trigger] ws[j])) ==> cli::review_of(
            review_line(text::decimal(n), ws),
        ) is Err,
        x.len() > 0 && x[0] == '-' && x != "--approve"@ && x != "--reject"@ ==> cli::review_of(
            review_line(text::decimal(n), ws).push(x),
        ) is Err,
{
    lemma_flags();
    let args = review_line(text::decimal(n), ws);
    assert(args.take(args.len() as int) =~= args);
    lemma_review_line(args, text::decimal(n), ws);
    law_number_reads_back(n);
    if forall|j: int| 0 <= j < ws.len() ==> !is_verdict(#[trigger] ws[j]) {
        lemma_review_no_verdict(ws);
    }
    let more = args.push(x);
    assert(more.take(args.len() as int) =~= args);
    lemma_review_line(more, text::decimal(n), ws);
    assert(more[args.len() as int] == x);
}

proof fn lemma_review_no_verdict(ws: Seq<ReviewWord>)
    requires
        forall|j: int| 0 <= j < ws.len() ==> !is_verdict(#[trigger] ws[j]),
    ensures
        review_said_all(ws).decision is None,
    decreases ws.len(),
{
    if ws.len() > 0 {
        let a = ws.drop_last();
        assert(forall|j: int| 0 <= j < a.len() ==> a[j] == ws[j]);
        lemma_review_no_verdict(a);
        assert(!is_verdict(ws[ws.len() - 1]));
    }
}

// ---------------------------------------------------------------------------
// A new issue

/// What an argument of `issue new` is meant to say.
pub enum IssueWord {
    Label(Seq<char>),
    ShortLabel(Seq<char>),
    Word(Seq<char>),
}

/// How several of them are written, one after the other.
pub open spec fn issue_line(ws: Seq<IssueWord>) -> Seq<Seq<char>>
    decreases ws.len(),
{
    if ws.len() == 0 {
        seq![]
    } else {
        issue_line(ws.drop_last()) + (match ws.last() {
            IssueWord::Label(s) => seq!["--label"@, s],
            IssueWord::ShortLabel(s) => seq!["-l"@, s],
            IssueWord::Word(s) => seq![s],
        })
    }
}

/// The labels that are meant, in their order, without the white space around them.
pub open spec fn issue_labels(ws: Seq<IssueWord>) -> Seq<Seq<char>>
    decreases ws.len(),
{
    if ws.len() == 0 {
        seq![]
    } else {
        match ws.last() {
            IssueWord::Label(s) => issue_labels(ws.drop_last()).push(text::trimmed(s)),
            IssueWord::ShortLabel(s) => issue_labels(ws.drop_last()).push(text::trimmed(s)),
            IssueWord::Word(s) => issue_labels(ws.drop_last()),
        }
    }
}

/// The other words, in their order.
pub open spec fn issue_plain(ws: Seq<IssueWord>) -> Seq<Seq<char>>
    decreases ws.len(),
{
    if ws.len() == 0 {
        seq![]
    } else {
        match ws.last() {
            IssueWord::Word(s) => issue_plain(ws.drop_last()).push(s),
            _ => issue_plain(ws.drop_last()),
        }
    }
}

/// Can they be written so that they are understood?
pub open spec fn issue_sayable(ws: Seq<IssueWord>) -> bool {
    forall|i: int|
        0 <= i < ws.len() ==> match #[trigger] ws[i] {
            IssueWord::Label(s) => text::trimmed(s).len() > 0,
            IssueWord::ShortLabel(s) => text::trimmed(s).len() > 0,
            IssueWord::Word(s) => s != "--"@ && s != "--label"@ && s != "-l"@,
        }
}

proof fn lemma_issue_line(args: Seq<Seq<char>>, ws: Seq<IssueWord>)
    requires
        issue_line(ws).len() <= args.len(),
        args.take(issue_line(ws).len() as int) == issue_line(ws),
        issue_sayable(ws),
    ensures
        cli::labels_and_rest(args, 0, seq![], seq![]) == cli::labels_and_rest(
            args,
            issue_line(ws).len() as int,
            issue_labels(ws),
            issue_plain(ws),
        ),
    decreases ws.len(),
{
    if ws.len() > 0 {
        lemma_flags();
        let whole = issue_line(ws);
        let a = ws.drop_last();
        let w = ws.last();
        let n = issue_line(a).len() as int;
        assert(forall|k: int| 0 <= k < whole.len() ==> args.take(whole.len() as int)[k] == args[k]);
        assert(args.take(n) =~= issue_line(a));
        assert(forall|k: int| 0 <= k < a.len() ==> a[k] == ws[k]);
        assert(ws[ws.len() - 1] == w);
        lemma_issue_line(args, a);
        assert(args[n] == whole[n]);
        match w {
            IssueWord::Label(s) => {
                assert(args[n + 1] == whole[n + 1]);
                assert(cli::label_at(args, n + 1) == Ok::<Seq<char>, Seq<char>>(text::trimmed(s)));
            },
            IssueWord::ShortLabel(s) => {
                assert(args[n + 1] == whole[n + 1]);
                assert(cli::label_at(args, n + 1) == Ok::<Seq<char>, Seq<char>>(text::trimmed(s)));
            },
            IssueWord::Word(s) => {},
        }
    }
}

/// A new issue is asked for as it is written, in whichever order: every label counts,
/// trimmed, in order; the first other word is the title and the second the description,
/// both trimmed, and an empty description is none.
pub proof fn law_issue_new_reads_back(ws: Seq<IssueWord>)
    requires
        issue_sayable(ws),
    ensures
        ({
            let plain = issue_plain(ws);
            match cli::new_issue_of(issue_line(ws)) {
                Ok(m) => {
                    &&& 1 <= plain.len() <= 2
                    &&& m.title == text::trimmed(plain[0])
                    &&& m.title.len() > 0
                    &&& m.labels == issue_labels(ws)
                    &&& plain.len() == 2 && text::trimmed(plain[1]).len() > 0 ==> m.description
                        == Some(text::trimmed(plain[1]))
                    &&& plain.len() == 1 || text::trimmed(plain[1]).len() == 0
                        ==> m.description is None
                },
                Err(_) => plain.len() == 0 || plain.len() > 2 || text::trimmed(plain[0]).len() == 0,
            }
        }),
{
    let args = issue_line(ws);
    assert(args.take(args.len() as int) =~= args);
    lemma_issue_line(args, ws);
}

/// Behind a `--` every argument is a word, whatever it looks like.
pub proof fn law_issue_words_behind_dashes(ws: Seq<IssueWord>, rest: Seq<Seq<char>>)
    requires
        issue_sayable(ws),
    ensures
        ({
            let plain = issue_plain(ws) + rest;
            match cli::new_issue_of(issue_line(ws) + seq!["--"@] + rest) {
                Ok(m) => {
                    &&& 1 <= plain.len() <= 2
                    &&& m.title == text::trimmed(plain[0])
                    &&& m.title.len() > 0
                    &&& m.labels == issue_labels(ws)
                    &&& plain.len() == 2 && text::trimmed(plain[1]).len() > 0 ==> m.description
                        == Some(text::trimmed(plain[1]))
                    &&& plain.len() == 1 || text::trimmed(plain[1]).len() == 0
                        ==> m.description is None
                },
                Err(_) => plain.len() == 0 || plain.len() > 2 || text::trimmed(plain[0]).len() == 0,
            }
        }),
{
    lemma_flags();
    let args = issue_line(ws) + seq!["--"@] + rest;
    let n = issue_line(ws).len() as int;
    assert(args.take(n) =~= issue_line(ws));
    lemma_issue_line(args, ws);
    assert(args[n] == "--"@);
    assert(args.skip(n + 1) =~= rest);
}

/// A label flag at the end, or with white space behind it, is refused.
pub proof fn law_label_needs_a_value(ws: Seq<IssueWord>, flag: Seq<char>, x: Seq<char>)
    requires
        issue_sayable(ws),
        flag == "--label"@ || flag == "-l"@,
        text::trimmed(x).len() == 0,
    ensures
        cli::new_issue_of(issue_line(ws).push(flag)) == Err::<cli::NewIssueModel, Seq<char>>(
            "--label requires a value"@,
        ),
        cli::new_issue_of(issue_line(ws) + seq![flag, x]) == Err::<cli::NewIssueModel, Seq<char>>(
            "--label requires a non-empty value"@,
        ),
{
    lemma_flags();
    let n = issue_line(ws).len() as int;
    let one = issue_line(ws).push(flag);
    assert(one.take(n) =~= issue_line(ws));
    lemma_issue_line(one, ws);
    assert(one[n] == flag);
    let two = issue_line(ws) + seq![flag, x];
    assert(two.take(n) =~= issue_line(ws));
    lemma_issue_line(two, ws);
    assert(two[n] == flag && two[n + 1] == x);
}

// ---------------------------------------------------------------------------
// A comment

/// Joined texts: the first stands alone, and each further one follows a separator.
pub proof fn law_joined(v: Seq<Seq<char>>, x: Seq<char>, sep: Seq<char>)
    ensures
        text::joined(seq![x], sep) == x,
        v.len() > 0 ==> text::joined(v.push(x), sep) == text::joined(v, sep) + sep + x,
{
    assert(v.push(x).drop_last() =~= v);
}

proof fn lemma_joined_pair(
    a: Seq<Seq<char>>,
    x: Seq<char>,
    y: Seq<char>,
    b: Seq<Seq<char>>,
    sep: Seq<char>,
)
    ensures
        text::joined(a + seq![x, y] + b, sep) == text::joined(a + seq![x + sep + y] + b, sep),
    decreases b.len(),
{
    let two = a + seq![x, y] + b;
    let one = a + seq![x + sep + y] + b;
    if b.len() == 0 {
        assert(two =~= a.push(x).push(y));
        assert(one =~= a.push(x + sep + y));
        law_joined(a.push(x), y, sep);
        if a.len() == 0 {
            assert(a.push(x) =~= seq![x]);
            assert(one =~= seq![x + sep + y]);
        } else {
            law_joined(a, x, sep);
            law_joined(a, x + sep + y, sep);
            assert(text::joined(a, sep) + sep + x + sep + y =~= text::joined(a, sep) + sep + (x
                + sep + y));
        }
    } else {
        let c = b.drop_last();
        lemma_joined_pair(a, x, y, c, sep);
        assert(two =~= (a + seq![x, y] + c).push(b.last()));
        assert(one =~= (a + seq![x + sep + y] + c).push(b.last()));
        law_joined(a + seq![x, y] + c, b.last(), sep);
        law_joined(a + seq![x + sep + y] + c, b.last(), sep);
    }
}

/// A comment of one argument is that argument without the white space around it, on the
/// number that stands before it.
pub proof fn law_comment_reads_back(n: nat, body: Seq<char>, usage: Seq<char>)
    requires
        1 <= n <= u64::MAX,
    ensures
        text::trimmed(body).len() > 0 ==> cli::comment_of(seq![text::decimal(n), body], usage)
            == Ok::<(int, Seq<char>), Seq<char>>((n as int, text::trimmed(body))),
        text::trimmed(body).len() == 0 ==> cli::comment_of(seq![text::decimal(n), body], usage)
            is Err,
        cli::comment_of(seq![text::decimal(n)], usage) == Err::<(int, Seq<char>), Seq<char>>(usage),
        cli::comment_of(seq![], usage) == Err::<(int, Seq<char>), Seq<char>>(usage),
{
    law_number_reads_back(n);
    let args = seq![text::decimal(n), body];
    assert(args.skip(1) =~= seq![body]);
}

/// A comment of several arguments says the same as one in which two neighbours stand
/// together with a blank between them.
pub proof fn law_comment_words(
    number: Seq<char>,
    a: Seq<Seq<char>>,
    x: Seq<char>,
    y: Seq<char>,
    b: Seq<Seq<char>>,
    usage: Seq<char>,
)
    ensures
        cli::comment_of(seq![number] + (a + seq![x, y] + b), usage) == cli::comment_of(
            seq![number] + (a + seq![x + seq![' '] + y] + b),
            usage,
        ),
{
    reveal_strlit(" ");
    assert(" "@ =~= seq![' ']);
    lemma_joined_pair(a, x, y, b, " "@);
    let two = seq![number] + (a + seq![x, y] + b);
    let one = seq![number] + (a + seq![x + seq![' '] + y] + b);
    assert(two.skip(1) =~= a + seq![x, y] + b);
    assert(one.skip(1) =~= a + seq![x + seq![' '] + y] + b);
    assert(two[0] == number && one[0] == number);
}

// ---------------------------------------------------------------------------
// Branches

/// A branch is the same whether it is named in full or by its bare name.
pub proof fn law_branch_forms_agree(name: Seq<char>)
    requires
        name.len() > 0,
        !text::starts_with(name, "refs/heads/"@),
    ensures
        cli::branch_of(name) == cli::branch_of("refs/heads/"@ + name),
        cli::branch_of(name) matches Ok((bare, full)) && bare == name,
        cli::branch_of("refs/heads/"@) is Err,
        cli::branch_of(seq![]) is Err,
{
    reveal_strlit("refs/heads/");
    let p = "refs/heads/"@;
    assert((p + name).take(p.len() as int) =~= p);
    assert((p + name).skip(p.len() as int) =~= name);
    assert(p.take(p.len() as int) =~= p);
    assert(p.skip(p.len() as int) =~= seq![]);
    assert(p.len() == 11);
}

} // verus!
