//! Line differences between two texts, and which of them are shown.

use crate::text::same_text;
use vstd::prelude::*;

verus! {

/// How much of a difference is shown.
#[derive(Debug, Clone, Copy, PartialEq, Eq, Structural)]
pub enum DiffChoice {
    /// Only the lines that differ.
    Short,
    /// Every line.
    Full,
    /// Nothing.
    Nothing,
}

impl DiffChoice {
    /// The name of the choice on the command line.
    pub open spec fn spec_name(self) -> Seq<char> {
        match self {
            DiffChoice::Short => "short"@,
            DiffChoice::Full => "full"@,
            DiffChoice::Nothing => "none"@,
        }
    }

    /// The choice that `name` names.
    pub open spec fn spec_from_name(name: Seq<char>) -> Option<DiffChoice> {
        if name == "short"@ {
            Some(DiffChoice::Short)
        } else if name == "full"@ {
            Some(DiffChoice::Full)
        } else if name == "none"@ {
            Some(DiffChoice::Nothing)
        } else {
            None
        }
    }

    /// All choices, in the order in which they are offered.
    pub fn value_variants() -> (r: Vec<DiffChoice>)
        ensures
            r@ == seq![DiffChoice::Short, DiffChoice::Full, DiffChoice::Nothing],
    {
        let mut v: Vec<DiffChoice> = Vec::new();
        v.push(DiffChoice::Short);
        v.push(DiffChoice::Full);
        v.push(DiffChoice::Nothing);
        assert(v@ =~= seq![DiffChoice::Short, DiffChoice::Full, DiffChoice::Nothing]);
        v
    }

    /// The name of the choice on the command line.
    pub fn name(&self) -> (r: &'static str)
        ensures
            r@ == self.spec_name(),
    {
        match self {
            DiffChoice::Short => "short",
            DiffChoice::Full => "full",
            DiffChoice::Nothing => "none",
        }
    }

    /// The name of the choice, as an owned string.
    pub fn to_string(&self) -> (r: String)
        ensures
            r@ == self.spec_name(),
    {
        String::from_str(self.name())
    }

    /// The choice that `name` names, if it names one.
    pub fn from_name(name: &str) -> (r: Option<DiffChoice>)
        ensures
            r == DiffChoice::spec_from_name(name@),
    {
        if same_text(name, "short") {
            Some(DiffChoice::Short)
        } else if same_text(name, "full") {
            Some(DiffChoice::Full)
        } else if same_text(name, "none") {
            Some(DiffChoice::Nothing)
        } else {
            None
        }
    }

    /// A choice is found again by its name.
    pub proof fn lemma_from_name_of_name(choice: DiffChoice)
        ensures
            DiffChoice::spec_from_name(choice.spec_name()) == Some(choice),
    {
        reveal_strlit("short");
        reveal_strlit("full");
        reveal_strlit("none");
        assert("short"@.len() == 5 && "full"@.len() == 4 && "none"@.len() == 4);
        assert("full"@[0] == 'f' && "none"@[0] == 'n');
    }
}

/// One line of the difference between an old and a new text.
#[derive(Debug, PartialEq, Eq)]
pub enum DiffLine {
    /// A line that only the old text has.
    Left(String),
    /// A line that both texts have, as it stands in the old and in the new.
    Both(String, String),
    /// A line that only the new text has.
    Right(String),
}

/// The mathematical value of a [`DiffLine`].
pub enum DiffLineView {
    Left(Seq<char>),
    Both(Seq<char>, Seq<char>),
    Right(Seq<char>),
}

impl View for DiffLine {
    type V = DiffLineView;

    open spec fn view(&self) -> DiffLineView {
        match self {
            DiffLine::Left(l) => DiffLineView::Left(l@),
            DiffLine::Both(l, r) => DiffLineView::Both(l@, r@),
            DiffLine::Right(r) => DiffLineView::Right(r@),
        }
    }
}

impl DiffLineView {
    /// The mark that heads the line: `-` for a line of the old text alone,
    /// `+` for one of the new text alone, nothing for a line of both.
    pub open spec fn motion(self) -> Seq<char> {
        match self {
            DiffLineView::Left(_) => "-"@,
            DiffLineView::Both(_, _) => ""@,
            DiffLineView::Right(_) => "+"@,
        }
    }

    /// The line itself; of a line of both texts, as it stands in the old one.
    pub open spec fn text(self) -> Seq<char> {
        match self {
            DiffLineView::Left(l) => l,
            DiffLineView::Both(l, _) => l,
            DiffLineView::Right(r) => r,
        }
    }
}

impl DiffLine {
    /// The mark that heads the line.
    pub fn motion(&self) -> (r: &'static str)
        ensures
            r@ == self@.motion(),
    {
        match self {
            DiffLine::Left(_) => "-",
            DiffLine::Both(_, _) => "",
            DiffLine::Right(_) => "+",
        }
    }

    /// The line itself.
    pub fn text(&self) -> (r: &str)
        ensures
            r@ == self@.text(),
    {
        match self {
            DiffLine::Left(l) => l.as_str(),
            DiffLine::Both(l, _) => l.as_str(),
            DiffLine::Right(r) => r.as_str(),
        }
    }

    /// A copy of the line.
    pub fn duplicate(&self) -> (r: DiffLine)
        ensures
            r@ == self@,
    {
        match self {
            DiffLine::Left(l) => DiffLine::Left(l.clone()),
            DiffLine::Both(l, r) => DiffLine::Both(l.clone(), r.clone()),
            DiffLine::Right(r) => DiffLine::Right(r.clone()),
        }
    }
}

/// The values of a list of lines.
pub open spec fn lines_view(lines: Seq<DiffLine>) -> Seq<DiffLineView> {
    lines.map_values(|l: DiffLine| l@)
}

/// The line difference between `old` and `new`, as the crate `diff` computes
/// it.
pub uninterp spec fn line_diff(old: Seq<char>, new: Seq<char>) -> Seq<DiffLineView>;

/// Calls `diff::lines`, which computes the difference between the lines of
/// two texts.
#[verifier::external_body]
fn diff_lines(old: &str, new: &str) -> (r: Vec<DiffLine>)
    ensures
        lines_view(r@) == line_diff(old@, new@),
{
    diff::lines(old, new).into_iter().map(
        |line| match line {
            diff::Result::Left(l) => DiffLine::Left(l.to_string()),
            diff::Result::Both(l, r) => DiffLine::Both(l.to_string(), r.to_string()),
            diff::Result::Right(r) => DiffLine::Right(r.to_string()),
        },
    ).collect()
}

/// Whether `line` is shown under `diff`: a line of one text alone unless
/// nothing is shown, a line of both texts only where everything is shown.
pub open spec fn is_shown(line: DiffLineView, diff: DiffChoice) -> bool {
    match line {
        DiffLineView::Left(_) => diff != DiffChoice::Nothing,
        DiffLineView::Both(_, _) => diff == DiffChoice::Full,
        DiffLineView::Right(_) => diff != DiffChoice::Nothing,
    }
}

/// The lines of `lines` that are shown under `diff`, in their order.
pub open spec fn shown(lines: Seq<DiffLineView>, diff: DiffChoice) -> Seq<DiffLineView> {
    lines.filter(|line: DiffLineView| is_shown(line, diff))
}

/// The lines of `lines` that are shown under `diff`, in their order.
pub fn select_difflines(lines: &Vec<DiffLine>, diff: DiffChoice) -> (r: Vec<DiffLine>)
    ensures
        lines_view(r@) == shown(lines_view(lines@), diff),
{
    let mut out: Vec<DiffLine> = Vec::new();
    let mut i: usize = 0;
    let ghost all = lines_view(lines@);
    let ghost pred = |line: DiffLineView| is_shown(line, diff);
    proof {
        reveal(Seq::filter);
        assert(all.take(0) =~= Seq::<DiffLineView>::empty());
        assert(lines_view(out@) =~= Seq::<DiffLineView>::empty());
    }
    while i < lines.len()
        invariant
            i <= lines.len(),
            all == lines_view(lines@),
            pred == |line: DiffLineView| is_shown(line, diff),
            lines_view(out@) == all.take(i as int).filter(pred),
        decreases lines.len() - i,
    {
        let line = &lines[i];
        let keep = match line {
            DiffLine::Left(_) => diff != DiffChoice::Nothing,
            DiffLine::Both(_, _) => diff == DiffChoice::Full,
            DiffLine::Right(_) => diff != DiffChoice::Nothing,
        };
        proof {
            reveal(Seq::filter);
            let next = all.take(i + 1);
            assert(next.drop_last() =~= all.take(i as int));
            assert(next.last() == line@);
        }
        if keep {
            let ghost before = out@;
            let copy = line.duplicate();
            out.push(copy);
            assert(lines_view(out@) =~= lines_view(before).push(line@));
        }
        i += 1;
    }
    assert(all.take(lines.len() as int) =~= all);
    out
}

/// The lines of the difference between `old` and `new` that are shown under
/// `diff`.
pub fn show_difflines(old: &str, new: &str, diff: DiffChoice) -> (r: Vec<DiffLine>)
    ensures
        lines_view(r@) == shown(line_diff(old@, new@), diff),
{
    let lines = diff_lines(old, new);
    select_difflines(&lines, diff)
}

/// Under `Nothing` no line is shown, under `Full` every line is, and under
/// `Short` the lines of one text alone are.
pub proof fn lemma_shown(lines: Seq<DiffLineView>)
    ensures
        shown(lines, DiffChoice::Nothing).len() == 0,
        shown(lines, DiffChoice::Full) == lines,
        shown(lines, DiffChoice::Short) == lines.filter(|line: DiffLineView| !(line is Both)),
    decreases lines.len(),
{
    reveal(Seq::filter);
    let short = |line: DiffLineView| !(line is Both);
    if lines.len() > 0 {
        lemma_shown(lines.drop_last());
        assert(lines.drop_last().push(lines.last()) =~= lines);
        assert(is_shown(lines.last(), DiffChoice::Short) == short(lines.last()));
    }
    assert(shown(lines, DiffChoice::Short) =~= lines.filter(short));
}

} // verus!
