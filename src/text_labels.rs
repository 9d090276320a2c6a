use vstd::prelude::*;
use vstd::std_specs::iter::IteratorSpec;

use crate::labels::families_view;
use crate::labels::names_view;
use crate::labels::FamilyLabels;

verus! {

broadcast use vstd::string::group_string_axioms;

/// Where the scan of an OpenMetrics text stands.
#[derive(Clone, Copy, PartialEq, Eq, Structural)]
pub enum ScanMode {
    /// At the start of a line.
    LineStart,
    /// Inside the metric name of a sample line.
    Name,
    /// In the rest of a line that holds no more label names: a comment, or what
    /// follows a sample's labels.
    Skip,
    /// Inside a label name.
    LabelName,
    /// Between `=` and the quote that opens the label value.
    ValueOpen,
    /// Inside a quoted label value.
    Value,
    /// Just after a backslash inside a label value.
    Escape,
    /// After the quote that closes a label value.
    AfterValue,
}

/// The scan's mode, the current metric name, the current label name, and the label
/// names found so far, each with the metric name of its sample.
pub type ScanView = (ScanMode, Seq<char>, Seq<char>, Seq<(Seq<char>, Seq<Seq<char>>)>);

/// One character of the scan. A line that starts with `#` is a comment. A sample line
/// is a metric name, then optionally `{`, label pairs `name="value"` separated by `,`,
/// and `}`; a value may hold any character, with `\` escaping the next one.
pub open spec fn scan_step(s: ScanView, c: char) -> ScanView {
    let (mode, name, label, out) = s;
    match mode {
        ScanMode::LineStart => if c == '#' {
            (ScanMode::Skip, name, label, out)
        } else if c == '\n' {
            (ScanMode::LineStart, name, label, out)
        } else {
            (ScanMode::Name, seq![c], label, out)
        },
        ScanMode::Name => if c == '{' {
            (ScanMode::LabelName, name, Seq::empty(), out)
        } else if c == '\n' {
            (ScanMode::LineStart, name, label, out)
        } else if c == ' ' {
            (ScanMode::Skip, name, label, out)
        } else {
            (ScanMode::Name, name.push(c), label, out)
        },
        ScanMode::LabelName => if c == '=' {
            (ScanMode::ValueOpen, name, label, out.push((name, seq![label])))
        } else if c == '}' {
            (ScanMode::Skip, name, label, out)
        } else if c == '\n' {
            (ScanMode::LineStart, name, label, out)
        } else {
            (ScanMode::LabelName, name, label.push(c), out)
        },
        ScanMode::ValueOpen => if c == '"' {
            (ScanMode::Value, name, label, out)
        } else if c == '\n' {
            (ScanMode::LineStart, name, label, out)
        } else {
            (ScanMode::ValueOpen, name, label, out)
        },
        ScanMode::Value => if c == '\\' {
            (ScanMode::Escape, name, label, out)
        } else if c == '"' {
            (ScanMode::AfterValue, name, label, out)
        } else {
            (ScanMode::Value, name, label, out)
        },
        ScanMode::Escape => (ScanMode::Value, name, label, out),
        ScanMode::AfterValue => if c == ',' {
            (ScanMode::LabelName, name, Seq::empty(), out)
        } else if c == '}' {
            (ScanMode::Skip, name, label, out)
        } else if c == '\n' {
            (ScanMode::LineStart, name, label, out)
        } else {
            (ScanMode::AfterValue, name, label, out)
        },
        ScanMode::Skip => if c == '\n' {
            (ScanMode::LineStart, name, label, out)
        } else {
            (ScanMode::Skip, name, label, out)
        },
    }
}

/// The scan after the characters `text`.
pub open spec fn scan(text: Seq<char>) -> ScanView
    decreases text.len(),
{
    if text.len() == 0 {
        (ScanMode::LineStart, Seq::empty(), Seq::empty(), Seq::empty())
    } else {
        scan_step(scan(text.drop_last()), text.last())
    }
}

/// The label names of the text's samples, in order, each with its sample's metric name.
pub open spec fn text_labels(text: Seq<char>) -> Seq<(Seq<char>, Seq<Seq<char>>)> {
    scan(text).3
}

/// Relies on `String::push`, which appends the character.
#[verifier::external_body]
fn push_char(s: &mut String, c: char)
    ensures
        final(s)@ == old(s)@.push(c),
{
    s.push(c)
}

struct Scanner {
    mode: ScanMode,
    name: String,
    label: String,
    out: Vec<FamilyLabels>,
}

impl View for Scanner {
    type V = ScanView;

    closed spec fn view(&self) -> ScanView {
        (self.mode, self.name@, self.label@, families_view(self.out@))
    }
}

impl Scanner {
    fn step(&mut self, c: char)
        ensures
            final(self)@ == scan_step(old(self)@, c),
    {
        match self.mode {
            ScanMode::LineStart => {
                if c == '#' {
                    self.mode = ScanMode::Skip;
                } else if c != '\n' {
                    let mut name = String::new();
                    push_char(&mut name, c);
                    assert(name@ =~= seq![c]);
                    self.name = name;
                    self.mode = ScanMode::Name;
                }
            },
            ScanMode::Name => {
                if c == '{' {
                    self.label = String::new();
                    assert(self.label@ =~= Seq::<char>::empty());
                    self.mode = ScanMode::LabelName;
                } else if c == '\n' {
                    self.mode = ScanMode::LineStart;
                } else if c == ' ' {
                    self.mode = ScanMode::Skip;
                } else {
                    push_char(&mut self.name, c);
                }
            },
            ScanMode::LabelName => {
                if c == '=' {
                    let found = FamilyLabels { name: self.name.clone(), labels: vec![self.label.clone()] };
                    assert(found@ =~= (self.name@, seq![self.label@]));
                    let ghost before = self.out@;
                    self.out.push(found);
                    assert(families_view(self.out@) =~= families_view(before).push(found@));
                    self.mode = ScanMode::ValueOpen;
                } else if c == '}' {
                    self.mode = ScanMode::Skip;
                } else if c == '\n' {
                    self.mode = ScanMode::LineStart;
                } else {
                    push_char(&mut self.label, c);
                }
            },
            ScanMode::ValueOpen => {
                if c == '"' {
                    self.mode = ScanMode::Value;
                } else if c == '\n' {
                    self.mode = ScanMode::LineStart;
                }
            },
            ScanMode::Value => {
                if c == '\\' {
                    self.mode = ScanMode::Escape;
                } else if c == '"' {
                    self.mode = ScanMode::AfterValue;
                }
            },
            ScanMode::Escape => {
                self.mode = ScanMode::Value;
            },
            ScanMode::AfterValue => {
                if c == ',' {
                    self.label = String::new();
                    assert(self.label@ =~= Seq::<char>::empty());
                    self.mode = ScanMode::LabelName;
                } else if c == '}' {
                    self.mode = ScanMode::Skip;
                } else if c == '\n' {
                    self.mode = ScanMode::LineStart;
                }
            },
            ScanMode::Skip => {
                if c == '\n' {
                    self.mode = ScanMode::LineStart;
                }
            },
        }
    }
}

/// The label names of the samples of an OpenMetrics text, in order, each with its
/// sample's metric name.
pub fn text_families(text: &str) -> (r: Vec<FamilyLabels>)
    ensures
        families_view(r@) == text_labels(text@),
{
    let mut scanner = Scanner { mode: ScanMode::LineStart, name: String::new(), label: String::new(), out: Vec::new() };
    proof {
        assert(families_view(scanner.out@) =~= Seq::<(Seq<char>, Seq<Seq<char>>)>::empty());
        assert(text@.subrange(0, 0) =~= Seq::<char>::empty());
    }
    let mut chars = text.chars();
    let ghost mut i: int = 0;
    loop
        invariant
            0 <= i <= text@.len(),
            chars.remaining() == text@.subrange(i, text@.len() as int),
            scanner@ == scan(text@.subrange(0, i)),
        ensures
            i == text@.len(),
            scanner@ == scan(text@.subrange(0, i)),
        decreases text@.len() - i,
    {
        match chars.next() {
            Some(c) => {
                proof {
                    assert(c == text@[i]);
                    let next = text@.subrange(0, i + 1);
                    assert(next.drop_last() =~= text@.subrange(0, i));
                    assert(text@.subrange(i + 1, text@.len() as int) =~= text@.subrange(i, text@.len() as int).drop_first());
                }
                scanner.step(c);
                proof {
                    i = i + 1;
                }
            },
            None => {
                break;
            },
        }
    }
    proof {
        assert(text@.subrange(0, i) =~= text@);
    }
    scanner.out
}

} // verus!
