use vstd::prelude::*;

use crate::condition::Condition;
use crate::condition::spec_conds_hold;
use crate::condition::spec_conds_rank;
use crate::condition::spec_finished_ready;
use crate::game::GameData;
use crate::named::Named;

verus! {

/// An immutable quest template: its requirements gate completion.
#[derive(Clone)]
pub struct Quest {
    pub name: String,
    pub description: String,
    pub requirements: Vec<Condition>,
}

impl Named for Quest {
    open spec fn spec_name(&self) -> Seq<char> {
        self.name@
    }

    fn name(&self) -> (r: String) {
        self.name.clone()
    }
}

/// Each text prefixed with a list dash.
pub open spec fn spec_dashed(texts: Seq<Seq<char>>) -> Seq<Seq<char>> {
    texts.map_values(|t: Seq<char>| "- "@ + t)
}

impl Quest {
    /// The quest sheet: name, description, and the rendered requirements as
    /// a dashed list.
    pub fn display(&self, game: &GameData) -> (r: String)
        requires
            forall|i: int|
                0 <= i < self.requirements@.len() ==> crate::condition::spec_cond_display_ready(
                    #[trigger] self.requirements@[i],
                    *game,
                ),
        ensures
            r@ == self.name@ + "\n\n"@ + self.description@ + "\n\nRequirements:\n"@
                + crate::strutil::spec_join(
                spec_dashed(
                    self.requirements@.map_values(
                        |c: Condition| crate::condition::spec_cond_display(c, *game),
                    ),
                ),
                "\n"@,
            ),
    {
        let rendered = Condition::display_all(&self.requirements, game);
        let ghost texts = spec_dashed(
            self.requirements@.map_values(
                |c: Condition| crate::condition::spec_cond_display(c, *game),
            ),
        );
        let mut parts: Vec<String> = Vec::new();
        let mut i: usize = 0;
        while i < rendered.len()
            invariant
                i <= rendered@.len(),
                rendered@.len() == self.requirements@.len(),
                texts == spec_dashed(
                    self.requirements@.map_values(
                        |c: Condition| crate::condition::spec_cond_display(c, *game),
                    ),
                ),
                forall|j: int|
                    0 <= j < rendered@.len() ==> (#[trigger] rendered@[j])@
                        == crate::condition::spec_cond_display(self.requirements@[j], *game),
                crate::strutil::seq_views(parts@) == texts.take(i as int),
            decreases rendered@.len() - i,
        {
            let mut part = String::from_str("- ");
            part.append(rendered[i].as_str());
            proof {
                assert(part@ == texts[i as int]);
            }
            let ghost parts_before = parts@;
            parts.push(part);
            proof {
                crate::strutil::lemma_seq_views_push(parts_before, parts@.last());
                assert(texts.take(i as int).push(texts[i as int]) =~= texts.take(i as int + 1));
                assert(crate::strutil::seq_views(parts@) =~= texts.take(i as int + 1));
            }
            i = i + 1;
        }
        proof {
            assert(texts.take(texts.len() as int) =~= texts);
        }

        let mut r = self.name.clone();
        r.append("\n\n");
        r.append(self.description.as_str());
        r.append("\n\nRequirements:\n");
        r.append(crate::strutil::join_strings(&parts, "\n").as_str());
        r
    }

    /// Whether the quest's requirements all hold right now; a quest with no
    /// requirements is always complete-eligible.
    pub fn check(&self, game: &GameData) -> (r: bool)
        requires
            spec_conds_rank(self.requirements@) == 1 ==> spec_finished_ready(*game),
        ensures
            r == spec_conds_hold(self.requirements@, *game),
        decreases spec_conds_rank(self.requirements@), 3int,
    {
        Condition::check_all(&self.requirements, game)
    }
}

} // verus!
