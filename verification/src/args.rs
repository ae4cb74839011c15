use vstd::prelude::*;

use crate::strutil::join_strings;
use crate::strutil::lower_of;
use crate::strutil::lowercase;
use crate::strutil::seq_views;
use crate::strutil::spec_join;

verus! {

/// A string split at every occurrence of `sep`: the separator-free parts,
/// in order, empty parts kept. Never empty — a string without separators is
/// one part.
pub open spec fn spec_split(s: Seq<char>, sep: char) -> Seq<Seq<char>>
    decreases s.len(),
{
    if s.len() == 0 {
        seq![Seq::<char>::empty()]
    } else if s[0] == sep {
        seq![Seq::<char>::empty()] + spec_split(s.drop_first(), sep)
    } else {
        let rest = spec_split(s.drop_first(), sep);
        seq![seq![s[0]] + rest[0]] + rest.drop_first()
    }
}

/// A split has at least one part.
pub proof fn lemma_split_len(s: Seq<char>, sep: char)
    ensures
        spec_split(s, sep).len() >= 1,
    decreases s.len(),
{
    if s.len() > 0 {
        lemma_split_len(s.drop_first(), sep);
    }
}

/// A separator-free string is a single part.
pub proof fn lemma_split_whole(s: Seq<char>, sep: char)
    requires
        forall|j: int| 0 <= j < s.len() ==> s[j] != sep,
    ensures
        spec_split(s, sep) == seq![s],
    decreases s.len(),
{
    if s.len() == 0 {
        assert(s =~= Seq::<char>::empty());
        assert(spec_split(s, sep) =~= seq![s]);
    } else {
        assert forall|j: int| 0 <= j < s.drop_first().len() implies s.drop_first()[j] != sep by {
            assert(s.drop_first()[j] == s[j + 1]);
        }
        lemma_split_whole(s.drop_first(), sep);
        let rest = spec_split(s.drop_first(), sep);
        assert(rest[0] == s.drop_first());
        assert(seq![s[0]] + s.drop_first() =~= s);
        assert(rest.drop_first() =~= Seq::<Seq<char>>::empty());
        assert(spec_split(s, sep) =~= seq![s]);
    }
}

/// Splitting at the first separator: the separator-free part before it,
/// then the split of what follows.
pub proof fn lemma_split_concat(x: Seq<char>, y: Seq<char>, sep: char)
    requires
        forall|j: int| 0 <= j < x.len() ==> x[j] != sep,
    ensures
        spec_split(x + seq![sep] + y, sep) == seq![x] + spec_split(y, sep),
    decreases x.len(),
{
    let s = x + seq![sep] + y;
    if x.len() == 0 {
        assert(s.len() == 1 + y.len());
        assert(s[0] == sep);
        assert(s.drop_first() =~= y);
        assert(x =~= Seq::<char>::empty());
        assert(spec_split(s, sep) =~= seq![x] + spec_split(y, sep));
    } else {
        assert forall|j: int| 0 <= j < x.drop_first().len() implies x.drop_first()[j] != sep by {
            assert(x.drop_first()[j] == x[j + 1]);
        }
        lemma_split_concat(x.drop_first(), y, sep);
        assert(s[0] == x[0]);
        assert(s[0] != sep);
        assert(s.drop_first() =~= x.drop_first() + seq![sep] + y);
        let rest = spec_split(s.drop_first(), sep);
        assert(rest == seq![x.drop_first()] + spec_split(y, sep));
        assert(rest[0] == x.drop_first());
        assert(seq![s[0]] + rest[0] =~= x);
        assert(rest.drop_first() =~= spec_split(y, sep));
        assert(spec_split(s, sep) =~= seq![x] + spec_split(y, sep));
    }
}

/// Splits a line at single spaces; consecutive spaces give empty parts,
/// as the parts are the exact separator-free stretches.
pub fn split_spaces(s: &str) -> (r: Vec<String>)
    ensures
        seq_views(r@) == spec_split(s@, ' '),
        r@.len() >= 1,
{
    let n = s.unicode_len();
    let mut out: Vec<String> = Vec::new();
    proof {
        assert(s@.skip(0) =~= s@);
        assert(seq_views(out@).len() == 0);
        assert(seq_views(out@) + spec_split(s@, ' ') =~= spec_split(s@, ' '));
    }
    let mut start: usize = 0;
    let mut i: usize = 0;
    while i < n
        invariant
            start <= i <= n,
            n == s@.len(),
            forall|j: int| start <= j < i ==> s@[j] != ' ',
            spec_split(s@, ' ') == seq_views(out@) + spec_split(s@.skip(start as int), ' '),
        decreases n - i,
    {
        let c = s.get_char(i);
        if c == ' ' {
            let part = String::from_str(s.substring_char(start, i));
            let ghost out_before = out@;
            out.push(part);
            proof {
                crate::strutil::lemma_seq_views_push(out_before, out@.last());
                let seg = s@.subrange(start as int, i as int);
                assert(s@.skip(start as int) =~= seg + seq![' '] + s@.skip(i as int + 1));
                lemma_split_concat(seg, s@.skip(i as int + 1), ' ');
                assert(seq_views(out@) + spec_split(s@.skip(i as int + 1), ' ') =~= seq_views(
                    out_before,
                ) + (seq![seg] + spec_split(s@.skip(i as int + 1), ' ')));
            }
            start = i + 1;
        }
        i = i + 1;
    }
    let part = String::from_str(s.substring_char(start, n));
    let ghost out_before = out@;
    out.push(part);
    proof {
        crate::strutil::lemma_seq_views_push(out_before, out@.last());
        let seg = s@.subrange(start as int, n as int);
        assert(s@.skip(start as int) =~= seg);
        lemma_split_whole(seg, ' ');
        assert(seq_views(out@) =~= seq_views(out_before) + seq![seg]);
        lemma_split_len(s@, ' ');
        assert(seq_views(out@) =~= spec_split(s@, ' '));
    }
    out
}

/// The parts that are not empty, in order.
pub open spec fn spec_drop_empty(parts: Seq<Seq<char>>) -> Seq<Seq<char>>
    decreases parts.len(),
{
    if parts.len() == 0 {
        Seq::empty()
    } else if parts[0].len() == 0 {
        spec_drop_empty(parts.drop_first())
    } else {
        seq![parts[0]] + spec_drop_empty(parts.drop_first())
    }
}

/// A parsed command line: the lowercased command word, the remaining
/// (nonempty) words, and those words rejoined as free text.
pub struct Args {
    pub command: String,
    pub list: Vec<String>,
    pub input: String,
}

impl Args {
    /// Splits a trimmed line at spaces: the first word, lowercased, is the
    /// command; the remaining nonempty words are the arguments; the
    /// arguments rejoined with spaces are the free-text input.
    pub fn parse(line: &str) -> (r: Args)
        ensures
            r.command@ == lower_of(spec_split(line@, ' ')[0]),
            seq_views(r.list@) == spec_drop_empty(spec_split(line@, ' ').drop_first()),
            r.input@ == spec_join(spec_drop_empty(spec_split(line@, ' ').drop_first()), " "@),
    {
        let parts = split_spaces(line);
        let command = lowercase(parts[0].as_str());
        proof {
            assert(seq_views(parts@)[0] == parts@[0]@);
        }

        let ghost tail = spec_split(line@, ' ').drop_first();
        let ghost kept = spec_drop_empty(tail);
        let mut list: Vec<String> = Vec::new();
        proof {
            assert(tail.skip(0) =~= tail);
            assert(Seq::<Seq<char>>::empty() + kept =~= kept);
        }
        let mut i: usize = 1;
        while i < parts.len()
            invariant
                1 <= i <= parts@.len(),
                seq_views(parts@) == spec_split(line@, ' '),
                tail == spec_split(line@, ' ').drop_first(),
                kept == spec_drop_empty(tail),
                kept == seq_views(list@) + spec_drop_empty(tail.skip(i - 1)),
            decreases parts@.len() - i,
        {
            proof {
                assert(tail.skip(i - 1)[0] == tail[i - 1]);
                assert(tail[i - 1] == seq_views(parts@)[i as int]);
                assert(seq_views(parts@)[i as int] == parts@[i as int]@);
                assert(tail.skip(i - 1).drop_first() =~= tail.skip(i as int));
            }
            if parts[i].as_str().unicode_len() > 0 {
                let ghost list_before = list@;
                list.push(parts[i].clone());
                proof {
                    crate::strutil::lemma_seq_views_push(list_before, list@.last());
                    assert(seq_views(list@) + spec_drop_empty(tail.skip(i as int)) =~= seq_views(
                        list_before,
                    ) + (seq![tail[i - 1]] + spec_drop_empty(tail.skip(i as int))));
                }
            }
            i = i + 1;
        }
        proof {
            assert(tail.skip(parts@.len() - 1) =~= Seq::<Seq<char>>::empty());
            assert(seq_views(list@) + Seq::<Seq<char>>::empty() =~= seq_views(list@));
        }

        let input = join_strings(&list, " ");

        Args { command, list, input }
    }

    /// Whether at least `min` arguments were supplied.
    pub fn check(&self, min: usize) -> (r: bool)
        ensures
            r == (self.list@.len() >= min),
    {
        self.list.len() >= min
    }

    /// An error when fewer than `min` arguments were supplied.
    pub fn check_err(&self, min: usize) -> (r: Result<(), String>)
        ensures
            self.list@.len() >= min ==> r is Ok,
            self.list@.len() < min ==> match r {
                Result::Err(m) => m@ == "You didn't supply enough arguments for that."@,
                Result::Ok(_) => false,
            },
    {
        if !self.check(min) {
            Err(String::from_str("You didn't supply enough arguments for that."))
        } else {
            Ok(())
        }
    }

    /// The arguments from `offset` on, rejoined with spaces.
    pub fn input_from(&self, offset: usize) -> (r: String)
        requires
            offset <= self.list@.len(),
        ensures
            r@ == spec_join(seq_views(self.list@.skip(offset as int)), " "@),
    {
        let mut tail_words: Vec<String> = Vec::new();
        let mut i: usize = offset;
        while i < self.list.len()
            invariant
                offset <= i <= self.list@.len(),
                tail_words@ =~= self.list@.subrange(offset as int, i as int),
            decreases self.list@.len() - i,
        {
            tail_words.push(self.list[i].clone());
            proof {
                assert(tail_words@ =~= self.list@.subrange(offset as int, i as int + 1));
            }
            i = i + 1;
        }
        proof {
            assert(tail_words@ =~= self.list@.skip(offset as int));
        }
        join_strings(&tail_words, " ")
    }
}

} // verus!
