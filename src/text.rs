//! The content generator: a fixed number of lines, each a long-lived random
//! prefix and a random postfix that changes on every refresh.

use vstd::prelude::*;

use crate::random::{is_random_string, random_strings};

verus! {

broadcast use vstd::string::group_string_axioms;

/// Number of refreshes after which the prefixes are drawn anew as well.
pub const RESET_PERIOD: usize = 4096;

/// The update counter after one more refresh.
pub open spec fn next_count(c: nat) -> nat {
    if (c + 1) % (RESET_PERIOD as nat) == 0 {
        0
    } else {
        c + 1
    }
}

/// The update counter after `n` refreshes, starting from `c`.
pub open spec fn count_after(c: nat, n: nat) -> nat
    decreases n,
{
    if n == 0 {
        c
    } else {
        next_count(count_after(c, (n - 1) as nat))
    }
}

/// Starting from zero, the update counter reads `k` after `k` refreshes for
/// every `k` below the reset period, and zero again after exactly the period.
pub proof fn lemma_reset_period(k: nat)
    requires
        k <= RESET_PERIOD,
    ensures
        k < RESET_PERIOD ==> count_after(0, k) == k,
        k == RESET_PERIOD ==> count_after(0, k) == 0,
    decreases k,
{
    if k > 0 {
        lemma_reset_period((k - 1) as nat);
    }
}

/// One displayed line: prefix, colon, space, postfix, newline.
pub open spec fn line_of(prefix: Seq<char>, postfix: Seq<char>) -> Seq<char> {
    prefix + seq![':', ' '] + postfix + seq!['\n']
}

/// The lines of the first `n` pairs, in order.
pub open spec fn wall_of(prefixes: Seq<Seq<char>>, postfixes: Seq<Seq<char>>, n: nat) -> Seq<
    char,
>
    decreases n,
{
    if n == 0 {
        seq![]
    } else {
        wall_of(prefixes, postfixes, (n - 1) as nat) + line_of(
            prefixes[n - 1],
            postfixes[n - 1],
        )
    }
}

/// Random strings, every one of them.
pub open spec fn all_random(v: Seq<Seq<char>>) -> bool {
    forall|i: int| 0 <= i < v.len() ==> is_random_string(#[trigger] v[i])
}

/// The text is a function of the state: two calls of `wall` on one state,
/// with no refresh between them, give the same text.
pub proof fn lemma_wall_repeatable(t: &StaticPrefixText, first: Seq<char>, second: Seq<char>)
    requires
        t.wf(),
        first == t.text_view(),
        second == t.text_view(),
    ensures
        first == second,
{
}

/// The generator's state: the prefixes, the postfixes and the count of
/// refreshes since the last full reset.
pub struct StaticPrefixText {
    prefixes: Vec<String>,
    postfixes: Vec<String>,
    update_count: usize,
}

impl StaticPrefixText {
    /// The prefixes, as character sequences.
    pub closed spec fn prefix_seq(&self) -> Seq<Seq<char>> {
        self.prefixes@.map_values(|s: String| s@)
    }

    /// The postfixes, as character sequences.
    pub closed spec fn postfix_seq(&self) -> Seq<Seq<char>> {
        self.postfixes@.map_values(|s: String| s@)
    }

    /// Refreshes since the last full reset.
    pub closed spec fn count(&self) -> nat {
        self.update_count as nat
    }

    /// As many prefixes as postfixes, all random strings, and the counter
    /// below the reset period.
    pub open spec fn wf(&self) -> bool {
        &&& self.prefix_seq().len() == self.postfix_seq().len()
        &&& all_random(self.prefix_seq())
        &&& all_random(self.postfix_seq())
        &&& self.count() < RESET_PERIOD
    }

    /// The text of the current state.
    pub open spec fn text_view(&self) -> Seq<char> {
        wall_of(self.prefix_seq(), self.postfix_seq(), self.prefix_seq().len())
    }

    /// `line_count` random prefixes and as many random postfixes, and a
    /// counter at zero.
    pub fn new(line_count: usize) -> (t: StaticPrefixText)
        ensures
            t.wf(),
            t.prefix_seq().len() == line_count,
            t.postfix_seq().len() == line_count,
            t.count() == 0,
    {
        let prefixes = random_strings(line_count);
        let postfixes = random_strings(line_count);
        let t = StaticPrefixText { prefixes, postfixes, update_count: 0 };
        assert(all_random(t.prefix_seq()));
        assert(all_random(t.postfix_seq()));
        t
    }

    /// Whether the next refresh is a full reset.
    pub fn next_is_reset(&self) -> (r: bool)
        requires
            self.wf(),
        ensures
            r == (next_count(self.count()) == 0),
    {
        self.update_count + 1 == RESET_PERIOD
    }

    /// One refresh with strings already drawn: `postfixes` replace the
    /// postfixes and the refresh is counted; at a full reset `prefixes` holds
    /// the new prefixes as well, and the counter starts again from zero.
    pub fn refresh_with(&mut self, prefixes: Option<Vec<String>>, postfixes: Vec<String>)
        requires
            old(self).wf(),
            postfixes@.len() == old(self).prefix_seq().len(),
            all_random(postfixes@.map_values(|s: String| s@)),
            prefixes is Some == (next_count(old(self).count()) == 0),
            prefixes is Some ==> prefixes->0@.len() == old(self).prefix_seq().len(),
            prefixes is Some ==> all_random(prefixes->0@.map_values(|s: String| s@)),
        ensures
            final(self).wf(),
            final(self).count() == next_count(old(self).count()),
            final(self).postfix_seq() == postfixes@.map_values(|s: String| s@),
            final(self).prefix_seq() == (match prefixes {
                Some(p) => p@.map_values(|s: String| s@),
                None => old(self).prefix_seq(),
            }),
    {
        self.postfixes = postfixes;
        match prefixes {
            Some(p) => {
                self.prefixes = p;
                self.update_count = 0;
            },
            None => {
                self.update_count = self.update_count + 1;
            },
        }
    }

    /// Draws new postfixes and counts the refresh; once the count reaches the
    /// reset period, draws new prefixes too and counts from zero.
    pub fn update_postfixes(&mut self)
        requires
            old(self).wf(),
        ensures
            final(self).wf(),
            final(self).prefix_seq().len() == old(self).prefix_seq().len(),
            final(self).postfix_seq().len() == old(self).postfix_seq().len(),
            final(self).count() == next_count(old(self).count()),
            final(self).count() != 0 ==> final(self).prefix_seq() == old(self).prefix_seq(),
    {
        let n = self.prefixes.len();
        let prefixes = if self.next_is_reset() {
            let p = random_strings(n);
            assert(all_random(p@.map_values(|s: String| s@)));
            Some(p)
        } else {
            None
        };
        let postfixes = random_strings(n);
        assert(all_random(postfixes@.map_values(|s: String| s@)));
        self.refresh_with(prefixes, postfixes);
    }

    /// Each prefix with the postfix at its position, as `prefix: postfix`,
    /// one line each, in order.
    pub fn wall(&self) -> (text: String)
        requires
            self.wf(),
        ensures
            text@ == self.text_view(),
    {
        let mut text = String::new();
        let n = self.prefixes.len();
        let mut i: usize = 0;
        while i < n
            invariant
                self.wf(),
                n == self.prefix_seq().len(),
                i <= n,
                text@ == wall_of(self.prefix_seq(), self.postfix_seq(), i as nat),
            decreases n - i,
        {
            text.append(self.prefixes[i].as_str());
            text.append(": ");
            text.append(self.postfixes[i].as_str());
            text.append("\n");
            proof {
                reveal_strlit(": ");
                reveal_strlit("\n");
            }
            i += 1;
            assert(text@ =~= wall_of(self.prefix_seq(), self.postfix_seq(), i as nat));
        }
        text
    }

    /// The prefixes.
    pub fn prefixes(&self) -> (p: &Vec<String>)
        ensures
            p@.map_values(|s: String| s@) == self.prefix_seq(),
    {
        &self.prefixes
    }

    /// The postfixes.
    pub fn postfixes(&self) -> (p: &Vec<String>)
        ensures
            p@.map_values(|s: String| s@) == self.postfix_seq(),
    {
        &self.postfixes
    }

    /// Refreshes since the last full reset.
    pub fn update_count(&self) -> (c: usize)
        ensures
            c == self.count(),
    {
        self.update_count
    }
}

} // verus!
