//! The stuck-packets report: parsing a vendor's free-form channel
//! description, selecting the congested channels of the watched chains,
//! and recording their queue sizes.
//!
//! A description has the shape `src [channel] --> dst`, where either side
//! may carry a display name before the chain identifier in parentheses,
//! as in `name (chain-id) [channel-7] --> other`.

use vstd::prelude::*;
use vstd::multiset::Multiset;
use vstd::seq_lib::group_to_multiset_ensures;
use vstd::string::*;

use crate::metrics::{gauge_entries, label_key, stuck_labels, Metrics};

verus! {

broadcast use group_to_multiset_ensures, vstd::multiset::group_multiset_axioms;

/// Why a channel description does not parse.
#[derive(Copy, Clone, Debug, PartialEq, Eq, Structural)]
pub enum DescError {
    /// No ` --> ` separator.
    MissingArrow,
    /// Nothing on the left of the arrow to name the source chain.
    MissingSourceChain,
    /// No `[channel]` token after the source chain.
    MissingSourceChannel,
    /// Nothing on the right of the arrow to name the destination chain.
    MissingDestinationChain,
}

/// One channel's queue state, as the vendor endpoint reports it.
#[derive(Debug, PartialEq)]
pub struct Status {
    pub name: String,
    pub token_name: String,
    pub last_tx: String,
    pub counter: i64,
    pub size_queue: i64,
    pub is_trigger: bool,
}

/// Mathematical image of a [`Status`].
#[verifier::ext_equal]
pub struct StatusV {
    pub name: Seq<char>,
    pub token_name: Seq<char>,
    pub last_tx: Seq<char>,
    pub counter: int,
    pub size_queue: int,
    pub is_trigger: bool,
}

impl View for Status {
    type V = StatusV;

    open spec fn view(&self) -> StatusV {
        StatusV {
            name: self.name@,
            token_name: self.token_name@,
            last_tx: self.last_tx@,
            counter: self.counter as int,
            size_queue: self.size_queue as int,
            is_trigger: self.is_trigger,
        }
    }
}

impl Clone for Status {
    /// A clone carries the same fields.
    fn clone(&self) -> (r: Status)
        ensures
            r@ == self@,
    {
        Status {
            name: self.name.clone(),
            token_name: self.token_name.clone(),
            last_tx: self.last_tx.clone(),
            counter: self.counter,
            size_queue: self.size_queue,
            is_trigger: self.is_trigger,
        }
    }
}

/// One channel with parsed endpoints and its queue state.
#[derive(Debug, PartialEq)]
pub struct ChannelStatus {
    pub src_chain: String,
    pub dst_chain: String,
    pub src_channel: String,
    pub status: Status,
}

/// Mathematical image of a [`ChannelStatus`].
#[verifier::ext_equal]
pub struct ChannelStatusV {
    pub src_chain: Seq<char>,
    pub dst_chain: Seq<char>,
    pub src_channel: Seq<char>,
    pub status: StatusV,
}

impl View for ChannelStatus {
    type V = ChannelStatusV;

    open spec fn view(&self) -> ChannelStatusV {
        ChannelStatusV {
            src_chain: self.src_chain@,
            dst_chain: self.dst_chain@,
            src_channel: self.src_channel@,
            status: self.status@,
        }
    }
}

impl Clone for ChannelStatus {
    /// A clone carries the same fields.
    fn clone(&self) -> (r: ChannelStatus)
        ensures
            r@ == self@,
    {
        ChannelStatus {
            src_chain: self.src_chain.clone(),
            dst_chain: self.dst_chain.clone(),
            src_channel: self.src_channel.clone(),
            status: self.status.clone(),
        }
    }
}

/// The vendor's whole report: one entry per channel.
#[derive(Clone, Debug, PartialEq)]
pub struct IbcStatus(pub Vec<ChannelStatus>);

/// The separator between the two sides of a description.
pub open spec fn arrow() -> Seq<char> {
    (" --> ")@
}

/// The earliest position at or after `i` where the arrow starts.
pub open spec fn find_arrow_from(s: Seq<char>, i: int) -> Option<int>
    decreases s.len() - i,
{
    if i < 0 || i + 5 > s.len() {
        None
    } else if s.subrange(i, i + 5) == arrow() {
        Some(i)
    } else {
        find_arrow_from(s, i + 1)
    }
}

/// A description's separator position, if any.
pub open spec fn find_arrow(s: Seq<char>) -> Option<int> {
    find_arrow_from(s, 0)
}

/// The whitespace that separates tokens.
pub open spec fn is_space(c: char) -> bool {
    c == ' ' || c == '\t' || c == '\n' || c == '\r'
}

/// The first non-space position at or after `i`.
pub open spec fn skip_spaces(s: Seq<char>, i: int) -> int
    decreases s.len() - i,
{
    if i < 0 || i >= s.len() {
        s.len() as int
    } else if is_space(s[i]) {
        skip_spaces(s, i + 1)
    } else {
        i
    }
}

/// The first space position at or after `i`, or the end.
pub open spec fn token_end(s: Seq<char>, i: int) -> int
    decreases s.len() - i,
{
    if i < 0 || i >= s.len() {
        s.len() as int
    } else if is_space(s[i]) {
        i
    } else {
        token_end(s, i + 1)
    }
}

/// Whether the side carries a parenthesized chain identifier.
pub open spec fn has_paren(s: Seq<char>) -> bool {
    exists|i: int| 0 <= i < s.len() && s[i] == '('
}

/// Leading characters drawn from `{a, b}` removed.
pub open spec fn trim_lead(s: Seq<char>, a: char, b: char) -> Seq<char>
    decreases s.len(),
{
    if s.len() > 0 && (s[0] == a || s[0] == b) {
        trim_lead(s.drop_first(), a, b)
    } else {
        s
    }
}

/// Trailing characters drawn from `{a, b}` removed.
pub open spec fn trim_trail(s: Seq<char>, a: char, b: char) -> Seq<char>
    decreases s.len(),
{
    if s.len() > 0 && (s[s.len() - 1] == a || s[s.len() - 1] == b) {
        trim_trail(s.drop_last(), a, b)
    } else {
        s
    }
}

/// Characters drawn from `{a, b}` removed from both ends.
pub open spec fn trim_chars(s: Seq<char>, a: char, b: char) -> Seq<char> {
    trim_trail(trim_lead(s, a, b), a, b)
}

/// One side of a description: the chain identifier — the first token,
/// or the second where a display name precedes a parenthesized chain —
/// with parentheses trimmed, and the following token, brackets trimmed,
/// where there is one.
pub open spec fn extract_spec(s: Seq<char>) -> Option<(Seq<char>, Option<Seq<char>>)> {
    let first = skip_spaces(s, 0);
    let pos = if has_paren(s) {
        skip_spaces(s, token_end(s, first))
    } else {
        first
    };
    if pos >= s.len() {
        None
    } else {
        let ce = token_end(s, pos);
        let chain = trim_chars(s.subrange(pos, ce), '(', ')');
        let cstart = skip_spaces(s, ce);
        if cstart >= s.len() {
            Some((chain, None))
        } else {
            Some(
                (chain, Some(trim_chars(s.subrange(cstart, token_end(s, cstart)), '[', ']'))),
            )
        }
    }
}

/// What parsing a description yields: source chain, source channel, and
/// destination chain, or the first failure.
pub open spec fn parse_desc_spec(s: Seq<char>) -> Result<
    (Seq<char>, Seq<char>, Seq<char>),
    DescError,
> {
    match find_arrow(s) {
        None => Err(DescError::MissingArrow),
        Some(i) => {
            let left = s.subrange(0, i);
            let right = s.subrange(i + 5, s.len() as int);
            match extract_spec(left) {
                None => Err(DescError::MissingSourceChain),
                Some((src_chain, channel)) => match channel {
                    None => Err(DescError::MissingSourceChannel),
                    Some(src_channel) => match extract_spec(right) {
                        None => Err(DescError::MissingDestinationChain),
                        Some((dst_chain, unused)) => Ok((src_chain, src_channel, dst_chain)),
                    },
                },
            }
        },
    }
}

/// Whether the arrow starts at position `i`.
fn arrow_at(s: &str, i: usize) -> (r: bool)
    requires
        i + 5 <= s@.len(),
        s@.len() <= usize::MAX,
    ensures
        r == (s@.subrange(i as int, i as int + 5) == arrow()),
{
    proof {
        reveal_strlit(" --> ");
    }
    let r = s.get_char(i) == ' ' && s.get_char(i + 1) == '-' && s.get_char(i + 2) == '-'
        && s.get_char(i + 3) == '>' && s.get_char(i + 4) == ' ';
    proof {
        let t = s@.subrange(i as int, i as int + 5);
        assert(t.len() == 5);
        assert(t[0] == s@[i as int] && t[1] == s@[i as int + 1] && t[2] == s@[i as int + 2] && t[3]
            == s@[i as int + 3] && t[4] == s@[i as int + 4]);
        if r {
            assert(t =~= arrow());
        } else {
            assert(t != arrow());
        }
    }
    r
}

/// Finds the arrow's position.
fn find_arrow_exec(s: &str) -> (r: Option<usize>)
    ensures
        match r {
            Some(i) => find_arrow(s@) == Some(i as int) && i + 5 <= s@.len(),
            None => find_arrow(s@) is None,
        },
{
    let n = s.unicode_len();
    if n < 5 {
        return None;
    }
    let mut i: usize = 0;
    while i <= n - 5
        invariant
            5 <= n == s@.len(),
            0 <= i <= n - 4,
            find_arrow(s@) == find_arrow_from(s@, i as int),
        decreases n - i,
    {
        if arrow_at(s, i) {
            proof {
                assert(find_arrow_from(s@, i as int) == Some(i as int));
            }
            return Some(i);
        }
        proof {
            assert(find_arrow_from(s@, i as int) == find_arrow_from(s@, i as int + 1));
        }
        i += 1;
    }
    proof {
        assert(find_arrow_from(s@, i as int) is None);
    }
    None
}

/// Whether a character separates tokens.
fn is_space_exec(c: char) -> (r: bool)
    ensures
        r == is_space(c),
{
    c == ' ' || c == '\t' || c == '\n' || c == '\r'
}

/// Finds the first non-space position at or after `i`.
fn skip_spaces_exec(s: &str, i: usize) -> (r: usize)
    requires
        i <= s@.len(),
    ensures
        r == skip_spaces(s@, i as int),
        i <= r <= s@.len(),
{
    let n = s.unicode_len();
    let mut j = i;
    while j < n
        invariant
            n == s@.len(),
            i <= j <= n,
            skip_spaces(s@, i as int) == skip_spaces(s@, j as int),
        decreases n - j,
    {
        if !is_space_exec(s.get_char(j)) {
            return j;
        }
        j += 1;
    }
    j
}

/// Finds the end of the token starting at `i`.
fn token_end_exec(s: &str, i: usize) -> (r: usize)
    requires
        i <= s@.len(),
    ensures
        r == token_end(s@, i as int),
        i <= r <= s@.len(),
{
    let n = s.unicode_len();
    let mut j = i;
    while j < n
        invariant
            n == s@.len(),
            i <= j <= n,
            token_end(s@, i as int) == token_end(s@, j as int),
        decreases n - j,
    {
        if is_space_exec(s.get_char(j)) {
            return j;
        }
        j += 1;
    }
    j
}

/// Whether the side carries an opening parenthesis.
fn has_paren_exec(s: &str, from: usize, to: usize) -> (r: bool)
    requires
        from <= to <= s@.len(),
    ensures
        r == has_paren(s@.subrange(from as int, to as int)),
{
    let ghost t = s@.subrange(from as int, to as int);
    let mut j = from;
    while j < to
        invariant
            from <= j <= to <= s@.len(),
            t == s@.subrange(from as int, to as int),
            forall|k: int| 0 <= k < j - from ==> t[k] != '(',
        decreases to - j,
    {
        if s.get_char(j) == '(' {
            proof {
                assert(t[j - from] == '(');
            }
            return true;
        }
        proof {
            assert(t[j - from] == s@[j as int]);
        }
        j += 1;
    }
    false
}

/// The token at `[from, to)` with characters from `{a, b}` trimmed off
/// both ends.
fn trim_token(s: &str, from: usize, to: usize, a: char, b: char) -> (r: String)
    requires
        from <= to <= s@.len(),
    ensures
        r@ == trim_chars(s@.subrange(from as int, to as int), a, b),
{
    let ghost t = s@.subrange(from as int, to as int);
    let mut lo = from;
    while lo < to
        invariant_except_break
            from <= lo <= to <= s@.len(),
            t == s@.subrange(from as int, to as int),
            trim_lead(t, a, b) == trim_lead(s@.subrange(lo as int, to as int), a, b),
        ensures
            from <= lo <= to <= s@.len(),
            t == s@.subrange(from as int, to as int),
            trim_lead(t, a, b) == s@.subrange(lo as int, to as int),
        decreases to - lo,
    {
        let c = s.get_char(lo);
        if c == a || c == b {
            proof {
                assert(s@.subrange(lo as int, to as int).drop_first() =~= s@.subrange(
                    lo as int + 1,
                    to as int,
                ));
            }
            lo += 1;
            proof {
                if lo == to {
                    assert(s@.subrange(lo as int, to as int) =~= Seq::<char>::empty());
                }
            }
        } else {
            proof {
                assert(s@.subrange(lo as int, to as int)[0] == c);
            }
            break ;
        }
    }
    let mut hi = to;
    while hi > lo
        invariant_except_break
            from <= lo <= hi <= to <= s@.len(),
            trim_lead(t, a, b) == s@.subrange(lo as int, to as int),
            trim_trail(s@.subrange(lo as int, to as int), a, b) == trim_trail(
                s@.subrange(lo as int, hi as int),
                a,
                b,
            ),
        ensures
            from <= lo <= hi <= to <= s@.len(),
            trim_chars(t, a, b) == s@.subrange(lo as int, hi as int),
        decreases hi - lo,
    {
        let c = s.get_char(hi - 1);
        if c == a || c == b {
            proof {
                assert(s@.subrange(lo as int, hi as int).drop_last() =~= s@.subrange(
                    lo as int,
                    hi as int - 1,
                ));
            }
            hi -= 1;
            proof {
                if hi == lo {
                    assert(s@.subrange(lo as int, hi as int) =~= Seq::<char>::empty());
                }
            }
        } else {
            proof {
                let u = s@.subrange(lo as int, hi as int);
                assert(u[u.len() - 1] == c);
            }
            break ;
        }
    }
    let piece = s.substring_char(lo, hi);
    piece.to_owned()
}

/// Extracts one side's chain identifier and following channel token.
fn extract_exec(s: &str, from: usize, to: usize) -> (r: Option<(String, Option<String>)>)
    requires
        from <= to <= s@.len(),
    ensures
        ({
            let spec = extract_spec(s@.subrange(from as int, to as int));
            match r {
                Some(p) => (spec matches Some(q) && p.0@ == q.0 && (match (p.1, q.1) {
                    (Some(x), Some(y)) => x@ == y,
                    (None, None) => true,
                    _ => false,
                })),
                None => spec is None,
            }
        }),
{
    let ghost t = s@.subrange(from as int, to as int);
    let side = s.substring_char(from, to);
    proof {
        assert(side@ == t);
    }
    let n = side.unicode_len();
    let first = skip_spaces_exec(side, 0);
    let pos = if has_paren_exec(side, 0, n) {
        proof {
            assert(side@.subrange(0, n as int) =~= side@);
        }
        let te = token_end_exec(side, first);
        skip_spaces_exec(side, te)
    } else {
        proof {
            assert(side@.subrange(0, n as int) =~= side@);
        }
        first
    };
    if pos >= n {
        return None;
    }
    let ce = token_end_exec(side, pos);
    let chain = trim_token(side, pos, ce, '(', ')');
    let cstart = skip_spaces_exec(side, ce);
    if cstart >= n {
        Some((chain, None))
    } else {
        let cend = token_end_exec(side, cstart);
        let channel = trim_token(side, cstart, cend, '[', ']');
        Some((chain, Some(channel)))
    }
}

/// Parses a channel description `src [channel] --> dst` into the source
/// chain, the source channel and the destination chain.
pub fn parse_desc(desc: &str) -> (r: Result<(String, String, String), DescError>)
    ensures
        match r {
            Ok(p) => parse_desc_spec(desc@) == Ok::<_, DescError>((p.0@, p.1@, p.2@)),
            Err(e) => parse_desc_spec(desc@) == Err::<(Seq<char>, Seq<char>, Seq<char>), _>(e),
        },
{
    let n = desc.unicode_len();
    let i = match find_arrow_exec(desc) {
        Some(i) => i,
        None => {
            return Err(DescError::MissingArrow);
        },
    };
    let left = match extract_exec(desc, 0, i) {
        Some(p) => p,
        None => {
            return Err(DescError::MissingSourceChain);
        },
    };
    let (src_chain, channel) = left;
    let src_channel = match channel {
        Some(c) => c,
        None => {
            return Err(DescError::MissingSourceChannel);
        },
    };
    proof {
        assert(i + 5 <= n);
    }
    let right = match extract_exec(desc, i + 5, n) {
        Some(p) => p,
        None => {
            return Err(DescError::MissingDestinationChain);
        },
    };
    Ok((src_chain, src_channel, right.0))
}

/// The views of a row of channel entries.
pub open spec fn channel_views(v: Seq<ChannelStatus>) -> Seq<ChannelStatusV> {
    Seq::new(v.len(), |i: int| v[i]@)
}

/// The views of a row of chain identifiers.
pub open spec fn chain_views(v: Seq<String>) -> Seq<Seq<char>> {
    Seq::new(v.len(), |i: int| v[i]@)
}

/// Whether a channel touches a chain, as either endpoint.
pub open spec fn touches_chain(c: ChannelStatusV, chain: Seq<char>) -> bool {
    c.src_chain == chain || c.dst_chain == chain
}

/// The entries touching a chain, in report order.
pub open spec fn filter_chain(s: Seq<ChannelStatusV>, chain: Seq<char>) -> Seq<ChannelStatusV>
    decreases s.len(),
{
    if s.len() == 0 {
        Seq::empty()
    } else {
        let rest = filter_chain(s.drop_last(), chain);
        if touches_chain(s.last(), chain) {
            rest.push(s.last())
        } else {
            rest
        }
    }
}

/// The entries touching a chain whose queue is non-empty, in report order.
pub open spec fn filter_stuck(s: Seq<ChannelStatusV>, chain: Seq<char>) -> Seq<ChannelStatusV>
    decreases s.len(),
{
    if s.len() == 0 {
        Seq::empty()
    } else {
        let rest = filter_stuck(s.drop_last(), chain);
        if touches_chain(s.last(), chain) && s.last().status.size_queue > 0 {
            rest.push(s.last())
        } else {
            rest
        }
    }
}

/// The congested entries of every watched chain, chain by chain. An entry
/// touching two watched chains appears once per chain.
pub open spec fn collect_stuck(s: Seq<ChannelStatusV>, chains: Seq<Seq<char>>) -> Seq<
    ChannelStatusV,
>
    decreases chains.len(),
{
    if chains.len() == 0 {
        Seq::empty()
    } else {
        collect_stuck(s, chains.drop_last()) + filter_stuck(s, chains.last())
    }
}

/// Ordered by queue size, largest first.
pub open spec fn sorted_desc(s: Seq<ChannelStatusV>) -> bool {
    forall|i: int, j: int|
        0 <= i < j < s.len() ==> (#[trigger] s[i]).status.size_queue >= (#[trigger] s[j]).status.size_queue
}

impl IbcStatus {
    /// The report's entries, in report order.
    pub fn channels(&self) -> (r: &Vec<ChannelStatus>)
        ensures
            r@ == self.0@,
    {
        &self.0
    }

    /// The entries touching a chain, in report order.
    pub fn by_chain(&self, chain: &str) -> (r: Vec<ChannelStatus>)
        ensures
            channel_views(r@) == filter_chain(channel_views(self.0@), chain@),
    {
        let ghost all = channel_views(self.0@);
        let n = self.0.len();
        let mut out: Vec<ChannelStatus> = Vec::new();
        let mut i: usize = 0;
        while i < n
            invariant
                n == self.0.len(),
                0 <= i <= n,
                all == channel_views(self.0@),
                channel_views(out@) =~= filter_chain(all.take(i as int), chain@),
            decreases n - i,
        {
            proof {
                assert(all.take(i as int + 1).drop_last() =~= all.take(i as int));
                assert(all.take(i as int + 1).last() == all[i as int]);
                assert(all[i as int] == self.0@[i as int]@);
            }
            let c = &self.0[i];
            if crate::text::str_eq(c.src_chain.as_str(), chain) || crate::text::str_eq(
                c.dst_chain.as_str(),
                chain,
            ) {
                out.push(c.clone());
            }
            proof {
                assert(channel_views(out@) =~= filter_chain(all.take(i as int + 1), chain@));
            }
            i += 1;
        }
        proof {
            assert(all.take(n as int) =~= all);
        }
        out
    }
}

/// The congested entries touching a chain, in report order.
fn stuck_by_chain(status: &IbcStatus, chain: &str) -> (r: Vec<ChannelStatus>)
    ensures
        channel_views(r@) == filter_stuck(channel_views(status.0@), chain@),
{
    let ghost all = channel_views(status.0@);
    let n = status.0.len();
    let mut out: Vec<ChannelStatus> = Vec::new();
    let mut i: usize = 0;
    while i < n
        invariant
            n == status.0.len(),
            0 <= i <= n,
            all == channel_views(status.0@),
            channel_views(out@) =~= filter_stuck(all.take(i as int), chain@),
        decreases n - i,
    {
        proof {
            assert(all.take(i as int + 1).drop_last() =~= all.take(i as int));
            assert(all.take(i as int + 1).last() == all[i as int]);
            assert(all[i as int] == status.0@[i as int]@);
        }
        let c = &status.0[i];
        if (crate::text::str_eq(c.src_chain.as_str(), chain) || crate::text::str_eq(
            c.dst_chain.as_str(),
            chain,
        )) && c.status.size_queue > 0 {
            out.push(c.clone());
        }
        proof {
            assert(channel_views(out@) =~= filter_stuck(all.take(i as int + 1), chain@));
        }
        i += 1;
    }
    proof {
        assert(all.take(n as int) =~= all);
    }
    out
}

/// Sorts entries by queue size, largest first, by repeatedly moving a
/// maximal remaining entry over.
fn sort_by_queue_desc(input: Vec<ChannelStatus>) -> (r: Vec<ChannelStatus>)
    ensures
        sorted_desc(channel_views(r@)),
        channel_views(r@).to_multiset() == channel_views(input@).to_multiset(),
{
    let ghost full = channel_views(input@);
    let mut work = input;
    let mut out: Vec<ChannelStatus> = Vec::new();
    while work.len() > 0
        invariant
            channel_views(out@).to_multiset().add(channel_views(work@).to_multiset())
                =~= full.to_multiset(),
            sorted_desc(channel_views(out@)),
            forall|i: int, j: int|
                0 <= i < out@.len() && 0 <= j < work@.len() ==> (#[trigger] channel_views(
                    out@,
                )[i]).status.size_queue >= (#[trigger] channel_views(work@)[j]).status.size_queue,
        decreases work.len(),
    {
        let n = work.len();
        let mut best: usize = 0;
        let mut i: usize = 1;
        while i < n
            invariant
                n == work.len(),
                0 < n,
                0 <= best < i <= n,
                forall|j: int|
                    0 <= j < i ==> (#[trigger] channel_views(work@)[j]).status.size_queue
                        <= channel_views(work@)[best as int].status.size_queue,
            decreases n - i,
        {
            proof {
                assert(channel_views(work@)[i as int] == work@[i as int]@);
                assert(channel_views(work@)[best as int] == work@[best as int]@);
            }
            if work[i].status.size_queue > work[best].status.size_queue {
                best = i;
            }
            i += 1;
        }
        let ghost pre_work = channel_views(work@);
        let ghost pre_out = channel_views(out@);
        let picked = work.remove(best);
        proof {
            assert(channel_views(work@) =~= pre_work.remove(best as int));
            assert(picked@ == pre_work[best as int]);
        }
        out.push(picked);
        proof {
            let x = pre_work[best as int];
            assert(channel_views(out@) =~= pre_out.push(x));
            assert(pre_out.push(x).to_multiset() =~= pre_out.to_multiset().insert(x));
            assert(channel_views(out@).to_multiset() =~= pre_out.to_multiset().insert(x));
            assert(pre_work.remove(best as int).to_multiset() =~= pre_work.to_multiset().remove(
                x,
            ));
            assert(channel_views(work@).to_multiset() =~= pre_work.to_multiset().remove(x));
            assert(pre_work.contains(x));
            assert(pre_work.to_multiset().count(x) > 0);
            assert(channel_views(out@).to_multiset().add(channel_views(work@).to_multiset())
                =~= full.to_multiset());
        }
    }
    proof {
        assert(channel_views(work@).to_multiset() =~= Multiset::<ChannelStatusV>::empty());
        assert(channel_views(out@).to_multiset() =~= full.to_multiset());
    }
    out
}

/// The congested channels of the watched chains, largest queue first.
pub fn stuck_channels(status: &IbcStatus, chain_ids: &Vec<String>) -> (r: Vec<ChannelStatus>)
    ensures
        sorted_desc(channel_views(r@)),
        channel_views(r@).to_multiset() == collect_stuck(
            channel_views(status.0@),
            chain_views(chain_ids@),
        ).to_multiset(),
{
    let ghost chains = chain_views(chain_ids@);
    let ghost all = channel_views(status.0@);
    let m = chain_ids.len();
    let mut picked: Vec<ChannelStatus> = Vec::new();
    let mut ci: usize = 0;
    while ci < m
        invariant
            m == chain_ids.len(),
            0 <= ci <= m,
            chains == chain_views(chain_ids@),
            all == channel_views(status.0@),
            channel_views(picked@) =~= collect_stuck(all, chains.take(ci as int)),
        decreases m - ci,
    {
        proof {
            assert(chains.take(ci as int + 1).drop_last() =~= chains.take(ci as int));
            assert(chains.take(ci as int + 1).last() == chains[ci as int]);
            assert(chains[ci as int] == chain_ids@[ci as int]@);
        }
        let filtered = stuck_by_chain(status, chain_ids[ci].as_str());
        let ghost pre = channel_views(picked@);
        let k = filtered.len();
        let mut fi: usize = 0;
        while fi < k
            invariant
                k == filtered.len(),
                0 <= fi <= k,
                channel_views(picked@) =~= pre + channel_views(filtered@).take(fi as int),
            decreases k - fi,
        {
            proof {
                assert(channel_views(filtered@)[fi as int] == filtered@[fi as int]@);
                assert((pre + channel_views(filtered@).take(fi as int + 1)) =~= (pre
                    + channel_views(filtered@).take(fi as int)).push(
                    channel_views(filtered@)[fi as int],
                ));
            }
            picked.push(filtered[fi].clone());
            fi += 1;
        }
        proof {
            assert(channel_views(filtered@).take(k as int) =~= channel_views(filtered@));
            assert(channel_views(picked@) =~= collect_stuck(all, chains.take(ci as int + 1)));
        }
        ci += 1;
    }
    proof {
        assert(chains.take(m as int) =~= chains);
    }
    sort_by_queue_desc(picked)
}

/// What recording a stuck report does to the gauge family: each entry's
/// queue size is written under its labels, in order.
pub open spec fn stuck_fold(m: Map<Seq<char>, int>, s: Seq<ChannelStatusV>) -> Map<
    Seq<char>,
    int,
>
    decreases s.len(),
{
    if s.len() == 0 {
        m
    } else {
        stuck_fold(
            m.insert(
                label_key(stuck_labels(s[0].src_chain, s[0].dst_chain, s[0].src_channel)),
                s[0].status.size_queue,
            ),
            s.drop_first(),
        )
    }
}

/// Records a stuck report: every entry's queue size is written to the
/// stuck-packets gauge under `(src_chain, dst_chain, src_channel)`.
pub fn record_stuck(metrics: &mut Metrics, channels: &Vec<ChannelStatus>)
    requires
        old(metrics).wf(),
    ensures
        final(metrics).wf(),
        gauge_entries(final(metrics).stuck) == stuck_fold(
            gauge_entries(old(metrics).stuck),
            channel_views(channels@),
        ),
        final(metrics).effected == old(metrics).effected,
        final(metrics).uneffected == old(metrics).uneffected,
        final(metrics).frontruns == old(metrics).frontruns,
        final(metrics).chains == old(metrics).chains,
        final(metrics).txs == old(metrics).txs,
        final(metrics).packets == old(metrics).packets,
        final(metrics).reconnects == old(metrics).reconnects,
        final(metrics).timeouts == old(metrics).timeouts,
        final(metrics).errors == old(metrics).errors,
{
    let ghost all = channel_views(channels@);
    proof {
        assert(all.skip(0) =~= all);
    }
    let n = channels.len();
    let mut i: usize = 0;
    while i < n
        invariant
            n == channels.len(),
            0 <= i <= n,
            all == channel_views(channels@),
            metrics.wf(),
            stuck_fold(gauge_entries(old(metrics).stuck), all) == stuck_fold(
                gauge_entries(metrics.stuck),
                all.skip(i as int),
            ),
            metrics.effected == old(metrics).effected,
            metrics.uneffected == old(metrics).uneffected,
            metrics.frontruns == old(metrics).frontruns,
            metrics.chains == old(metrics).chains,
            metrics.txs == old(metrics).txs,
            metrics.packets == old(metrics).packets,
            metrics.reconnects == old(metrics).reconnects,
            metrics.timeouts == old(metrics).timeouts,
            metrics.errors == old(metrics).errors,
        decreases n - i,
    {
        let ghost rest = all.skip(i as int);
        proof {
            assert(rest[0] == all[i as int]);
            assert(all[i as int] == channels@[i as int]@);
            assert(rest.drop_first() =~= all.skip(i as int + 1));
        }
        let c = &channels[i];
        metrics.ibc_stuck_packets(
            c.src_chain.as_str(),
            c.dst_chain.as_str(),
            c.src_channel.as_str(),
            c.status.size_queue,
        );
        i += 1;
    }
    proof {
        assert(all.skip(n as int) =~= Seq::<ChannelStatusV>::empty());
    }
}

impl ChannelStatus {
    /// Builds a channel entry from a description and its queue state.
    pub fn from_desc(desc: &str, status: Status) -> (r: Result<ChannelStatus, DescError>)
        ensures
            match r {
                Ok(c) => (parse_desc_spec(desc@) matches Ok(p) && c@ == (ChannelStatusV {
                    src_chain: p.0,
                    dst_chain: p.2,
                    src_channel: p.1,
                    status: status@,
                })),
                Err(e) => parse_desc_spec(desc@) == Err::<(Seq<char>, Seq<char>, Seq<char>), _>(
                    e,
                ),
            },
    {
        match parse_desc(desc) {
            Ok(p) => {
                let (src_chain, src_channel, dst_chain) = p;
                Ok(ChannelStatus { src_chain, dst_chain, src_channel, status })
            },
            Err(e) => Err(e),
        }
    }
}

} // verus!
