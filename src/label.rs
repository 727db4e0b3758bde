use vstd::prelude::*;

verus! {

/// The text of a label: its parts joined by `/`.
pub open spec fn join_parts(parts: Seq<Seq<char>>) -> Seq<char>
    decreases parts.len(),
{
    if parts.len() == 0 {
        Seq::empty()
    } else if parts.len() == 1 {
        parts[0]
    } else {
        join_parts(parts.drop_last()) + seq!['/'] + parts.last()
    }
}

/// Hierarchical name of a benchmark: a root part followed by the parts
/// appended for its parameters.
#[derive(Debug)]
pub struct Label {
    parts: Vec<String>,
}

impl View for Label {
    type V = Seq<Seq<char>>;

    closed spec fn view(&self) -> Seq<Seq<char>> {
        self.parts@.map_values(|p: String| p@)
    }
}

impl Label {
    /// A label made of the root part alone.
    pub fn new(root: &str) -> (r: Self)
        ensures
            r@ == seq![root@],
            r@.len() >= 1,
    {
        let mut parts: Vec<String> = Vec::new();
        parts.push(root.to_string());
        let r = Label { parts };
        assert(r@ =~= seq![root@]);
        r
    }

    /// The label with `part` appended as its last part.
    pub fn with_part(self, part: &str) -> (r: Self)
        ensures
            r@ == self@.push(part@),
            r@.len() >= 1,
            self@.len() >= 1 ==> join_parts(r@) == join_parts(self@) + seq!['/'] + part@,
    {
        let mut parts = self.parts;
        parts.push(part.to_string());
        let r = Label { parts };
        assert(r@ =~= self@.push(part@));
        assert(r@.drop_last() =~= self@);
        r
    }

    /// The parts joined by `/`: the text that is shown and matched
    /// against a filter.
    pub fn render(&self) -> (r: String)
        ensures
            r@ == join_parts(self@),
    {
        let n = self.parts.len();
        if n == 0 {
            return String::new();
        }
        let mut out = self.parts[0].clone();
        let mut i: usize = 1;
        proof {
            assert(self@.subrange(0, 1) =~= seq![self@[0]]);
        }
        while i < n
            invariant
                1 <= i <= n,
                n == self@.len(),
                out@ == join_parts(self@.subrange(0, i as int)),
            decreases n - i,
        {
            out.append("/");
            out.append(self.parts[i].as_str());
            proof {
                reveal_strlit("/");
                let next = self@.subrange(0, i + 1);
                assert(next.drop_last() =~= self@.subrange(0, i as int));
                assert(next.last() == self.parts@[i as int]@);
            }
            i = i + 1;
        }
        assert(self@.subrange(0, n as int) =~= self@);
        out
    }
}

/// A label made of the root part alone, as `Label::new`. Nothing is claimed
/// of a conversion through `From` in contracts: callers that need the view
/// call `Label::new`.
impl<'a> From<&'a str> for Label {
    fn from(value: &'a str) -> (r: Label) {
        Label::new(value)
    }
}

impl<'a> vstd::std_specs::convert::FromSpecImpl<&'a str> for Label {
    open spec fn obeys_from_spec() -> bool {
        false
    }

    open spec fn from_spec(v: &'a str) -> Label {
        arbitrary()
    }
}

} // verus!
