use vstd::prelude::*;

verus! {

/// Mathematical model of [`JsonState`]: the same variants, with unbounded counters
/// and the capture buffer as a sequence of characters.
pub enum ScanState {
    Idle,
    Active { data: Seq<char>, depth: nat, in_string: bool, escaped: bool },
    MaybeFence { ticks: nat },
    Fence { width: nat, run: nat },
}

/// What one character, or a run of characters, does: the next state, the completed
/// object if one closed, and the narration passed through.
pub type ScanOutcome = (ScanState, Option<Seq<char>>, Seq<char>);

/// State of the incremental extractor between two characters.
#[derive(Clone, Debug)]
pub enum JsonState {
    /// No capture in progress; text passes through.
    Idle,
    /// Inside a captured object: `data` holds every character captured so far,
    /// `num_brackets` the braces still open outside string literals.
    Active { data: String, num_brackets: usize, in_string: bool, escaped: bool },
    /// A run of `tick_count` backticks seen from `Idle`; the fence width is still open.
    MaybeIgnore { tick_count: usize },
    /// Skipping a fenced region `num_ticks` backticks wide; `tick_count` counts the
    /// current run of backticks that may close it.
    Ignore { num_ticks: usize, tick_count: usize },
}

impl View for JsonState {
    type V = ScanState;

    open spec fn view(&self) -> ScanState {
        match self {
            JsonState::Idle => ScanState::Idle,
            JsonState::Active { data, num_brackets, in_string, escaped } => ScanState::Active {
                data: data@,
                depth: *num_brackets as nat,
                in_string: *in_string,
                escaped: *escaped,
            },
            JsonState::MaybeIgnore { tick_count } => ScanState::MaybeFence {
                ticks: *tick_count as nat,
            },
            JsonState::Ignore { num_ticks, tick_count } => ScanState::Fence {
                width: *num_ticks as nat,
                run: *tick_count as nat,
            },
        }
    }
}

impl ScanState {
    /// A capture has at least one open brace, a fence is at least one backtick wide
    /// and its closing run is shorter than its width.
    pub open spec fn wf(self) -> bool {
        match self {
            ScanState::Idle => true,
            ScanState::Active { depth, .. } => 1 <= depth <= usize::MAX,
            ScanState::MaybeFence { ticks } => 1 <= ticks <= usize::MAX,
            ScanState::Fence { width, run } => run < width <= usize::MAX,
        }
    }
}

impl JsonState {
    /// See [`ScanState::wf`].
    pub open spec fn wf(&self) -> bool {
        self@.wf()
    }
}

impl Default for JsonState {
    fn default() -> (r: JsonState)
        ensures
            r@ == ScanState::Idle,
    {
        JsonState::Idle
    }
}

/// A counter that stops at the largest `usize`; no text held in memory reaches it.
pub open spec fn bump(n: nat) -> nat {
    if n < usize::MAX {
        n + 1
    } else {
        n
    }
}

/// The extractor on one character.
pub open spec fn scan_char(st: ScanState, c: char) -> ScanOutcome {
    match st {
        ScanState::Idle => {
            if c == '{' {
                (
                    ScanState::Active { data: seq!['{'], depth: 1, in_string: false, escaped: false },
                    None,
                    Seq::empty(),
                )
            } else if c == '`' {
                (ScanState::MaybeFence { ticks: 1 }, None, seq![c])
            } else {
                (ScanState::Idle, None, seq![c])
            }
        },
        ScanState::Active { data, depth, in_string, escaped } => {
            let d = data.push(c);
            if c == '{' && !in_string {
                (ScanState::Active { data: d, depth: bump(depth), in_string, escaped }, None, Seq::empty())
            } else if c == '}' && !in_string {
                if depth <= 1 {
                    (ScanState::Idle, Some(d), Seq::empty())
                } else {
                    (
                        ScanState::Active { data: d, depth: (depth - 1) as nat, in_string, escaped },
                        None,
                        Seq::empty(),
                    )
                }
            } else if c == '"' && !escaped {
                (ScanState::Active { data: d, depth, in_string: !in_string, escaped }, None, Seq::empty())
            } else if c == '\\' && !escaped {
                (ScanState::Active { data: d, depth, in_string, escaped: true }, None, Seq::empty())
            } else {
                (ScanState::Active { data: d, depth, in_string, escaped: false }, None, Seq::empty())
            }
        },
        ScanState::MaybeFence { ticks } => {
            if c == '`' {
                (ScanState::MaybeFence { ticks: bump(ticks) }, None, seq![c])
            } else {
                (ScanState::Fence { width: ticks, run: 0 }, None, seq![c])
            }
        },
        ScanState::Fence { width, run } => {
            if c == '`' {
                if run + 1 == width {
                    (ScanState::Idle, None, seq![c])
                } else {
                    (ScanState::Fence { width, run: run + 1 }, None, seq![c])
                }
            } else {
                (ScanState::Fence { width, run: 0 }, None, seq![c])
            }
        },
    }
}

/// The extractor on a run of characters: characters are taken in order until an
/// object completes; the characters after it are left unread.
pub open spec fn scan(st: ScanState, s: Seq<char>) -> ScanOutcome
    decreases s.len(),
{
    if s.len() == 0 {
        (st, None, Seq::empty())
    } else {
        let prev = scan(st, s.drop_last());
        if prev.1 is Some {
            prev
        } else {
            let next = scan_char(prev.0, s.last());
            (next.0, next.1, prev.2 + next.2)
        }
    }
}

/// What scanning `a` and then `b` gives, from what each run gives on its own.
pub open spec fn chain(first: ScanOutcome, then_b: ScanOutcome) -> ScanOutcome {
    if first.1 is Some {
        first
    } else {
        (then_b.0, then_b.1, first.2 + then_b.2)
    }
}

/// One character keeps the state well formed, and a completed object leaves the
/// extractor idle.
pub proof fn lemma_scan_char_wf(st: ScanState, c: char)
    requires
        st.wf(),
    ensures
        scan_char(st, c).0.wf(),
        scan_char(st, c).1 is Some ==> scan_char(st, c).0 == ScanState::Idle,
{
}

/// A run of characters keeps the state well formed, and a completed object leaves
/// the extractor idle.
pub proof fn lemma_scan_wf(st: ScanState, s: Seq<char>)
    requires
        st.wf(),
    ensures
        scan(st, s).0.wf(),
        scan(st, s).1 is Some ==> scan(st, s).0 == ScanState::Idle,
    decreases s.len(),
{
    if s.len() > 0 {
        lemma_scan_wf(st, s.drop_last());
        lemma_scan_char_wf(scan(st, s.drop_last()).0, s.last());
    }
}

/// Splitting the input anywhere changes nothing: scanning `a + b` is scanning `a`,
/// then scanning `b` from where `a` left off, unless `a` already completed an object.
pub proof fn lemma_scan_split(st: ScanState, a: Seq<char>, b: Seq<char>)
    ensures
        scan(st, a + b) == chain(scan(st, a), scan(scan(st, a).0, b)),
    decreases b.len(),
{
    if b.len() == 0 {
        assert(a + b =~= a);
    } else {
        lemma_scan_split(st, a, b.drop_last());
        assert((a + b).drop_last() =~= a + b.drop_last());
        assert((a + b).last() == b.last());
        let r = scan(st, a);
        let q = scan(r.0, b.drop_last());
        if r.1 is None && q.1 is None {
            let n = scan_char(q.0, b.last());
            assert(r.2 + (q.2 + n.2) =~= (r.2 + q.2) + n.2);
        }
    }
}

/// Text with no opening brace, read outside a capture, is passed through whole and
/// completes nothing.
pub proof fn lemma_plain_text_passes_through(st: ScanState, s: Seq<char>)
    requires
        !(st is Active),
        forall|i: int| 0 <= i < s.len() ==> s[i] != '{',
    ensures
        scan(st, s).1 is None,
        scan(st, s).2 == s,
        !(scan(st, s).0 is Active),
    decreases s.len(),
{
    if s.len() > 0 {
        lemma_plain_text_passes_through(st, s.drop_last());
        assert(s.drop_last() + seq![s.last()] =~= s);
    }
}

/// Feeds a fragment to the extractor, one character at a time, carrying `json_state`
/// across characters. Reading stops at the character that completes an object: the
/// result is the state after the last character read, the completed object if any,
/// and the narration passed through. A backslash inside a capture is kept, so escape
/// sequences stand verbatim in the captured text.
pub fn parse_json_from_stream(input: &str, json_state: JsonState) -> (r: (JsonState, Option<String>, String))
    requires
        json_state.wf(),
    ensures
        r.0@ == scan(json_state@, input@).0,
        r.0.wf(),
        r.1 matches Some(j) ==> scan(json_state@, input@).1 == Some(j@),
        r.1 is None ==> scan(json_state@, input@).1 is None,
        r.2@ == scan(json_state@, input@).2,
{
    let ghost start = json_state@;
    let mut state = json_state;
    let mut completed: Option<String> = None;
    let mut filtered = String::new();
    let ghost mut count: int = 0;
    proof {
        assert(input@.take(0) =~= Seq::<char>::empty());
    }
    for ch in it: input.chars()
        invariant
            it.seq() == input@,
            count == it.index(),
            0 <= count <= input@.len(),
            state.wf(),
            state@ == scan(start, input@.take(count)).0,
            filtered@ == scan(start, input@.take(count)).2,
            completed matches Some(j) ==> scan(start, input@.take(count)).1 == Some(j@),
            completed is None ==> scan(start, input@.take(count)).1 is None,
    {
        proof {
            assert(input@.take(count + 1).drop_last() =~= input@.take(count));
            assert(input@.take(count + 1).last() == ch);
        }
        if completed.is_none() {
            let (next, done) = scan_one(state, ch, &mut filtered);
            state = next;
            completed = done;
        }
        proof {
            count = count + 1;
        }
    }
    proof {
        assert(input@.take(count) =~= input@);
    }
    (state, completed, filtered)
}

/// The text held by a capture in progress; nothing outside a capture.
pub open spec fn pending(st: ScanState) -> Seq<char> {
    match st {
        ScanState::Active { data, .. } => data,
        _ => Seq::empty(),
    }
}

/// Every character read is either narration or captured: from outside a capture,
/// the narration followed by the completed object is the text up to the character
/// that closed it, and without a completed object the narration followed by the
/// capture in progress is the whole text.
pub proof fn lemma_scan_loses_nothing(st: ScanState, s: Seq<char>)
    requires
        !(st is Active),
    ensures
        scan(st, s).1 matches Some(j) ==> exists|k: int| 0 < k <= s.len() && #[trigger] s.take(k) == scan(st, s).2 + j,
        scan(st, s).1 is None ==> scan(st, s).2 + pending(scan(st, s).0) == s,
    decreases s.len(),
{
    if s.len() > 0 {
        let init = s.drop_last();
        lemma_scan_loses_nothing(st, init);
        let prev = scan(st, init);
        if prev.1 is Some {
            let j = prev.1->0;
            let k = choose|k: int| 0 < k <= init.len() && #[trigger] init.take(k) == prev.2 + j;
            assert(s.take(k) =~= init.take(k));
        } else {
            let c = s.last();
            let next = scan_char(prev.0, c);
            assert(init.push(c) =~= s);
            assert(s.take(s.len() as int) =~= s);
            match prev.0 {
                ScanState::Active { data, .. } => {
                    assert(prev.2 + data.push(c) =~= (prev.2 + data).push(c));
                    assert(prev.2 + Seq::<char>::empty() =~= prev.2);
                },
                _ => {
                    assert(prev.2 + Seq::<char>::empty() =~= prev.2);
                    assert(prev.2 + seq![c] =~= init.push(c));
                    assert(prev.2 + seq![c] + Seq::<char>::empty() =~= prev.2 + seq![c]);
                    if c == '{' {
                        assert(prev.2 + seq!['{'] =~= init.push(c));
                    }
                },
            }
        }
    }
}

/// A capture in progress begins with the brace that opened it.
pub open spec fn opened_by_brace(st: ScanState) -> bool {
    st is Active ==> pending(st).len() >= 1 && pending(st)[0] == '{'
}

/// What the extractor captures begins with `{` and ends with `}`.
pub proof fn lemma_capture_is_braced(st: ScanState, s: Seq<char>)
    requires
        opened_by_brace(st),
    ensures
        opened_by_brace(scan(st, s).0),
        scan(st, s).1 matches Some(j) ==> j.len() >= 2 && j[0] == '{' && j.last() == '}',
    decreases s.len(),
{
    if s.len() > 0 {
        lemma_capture_is_braced(st, s.drop_last());
        let prev = scan(st, s.drop_last());
        if prev.1 is None {
            let c = s.last();
            match prev.0 {
                ScanState::Active { data, .. } => {
                    assert(data.push(c)[0] == data[0]);
                },
                _ => {},
            }
        }
    }
}

/// Relies on `String::push`: appends the one character.
#[verifier::external_body]
fn push_char(s: &mut String, c: char)
    ensures
        final(s)@ == old(s)@.push(c),
{
    s.push(c)
}

/// Feeds one character to the extractor.
pub fn scan_one(state: JsonState, ch: char, passthrough: &mut String) -> (r: (JsonState, Option<String>))
    requires
        state.wf(),
    ensures
        r.0@ == scan_char(state@, ch).0,
        r.0.wf(),
        r.1 matches Some(j) ==> scan_char(state@, ch).1 == Some(j@),
        r.1 is None ==> scan_char(state@, ch).1 is None,
        final(passthrough)@ == old(passthrough)@ + scan_char(state@, ch).2,
{
    proof {
        lemma_scan_char_wf(state@, ch);
    }
    match state {
        JsonState::Idle => {
            if ch == '{' {
                let mut data = String::new();
                push_char(&mut data, ch);
                assert(data@ =~= seq!['{']);
                assert(old(passthrough)@ + Seq::<char>::empty() =~= old(passthrough)@);
                (JsonState::Active { data, num_brackets: 1, in_string: false, escaped: false }, None)
            } else if ch == '`' {
                push_char(passthrough, ch);
                (JsonState::MaybeIgnore { tick_count: 1 }, None)
            } else {
                push_char(passthrough, ch);
                (JsonState::Idle, None)
            }
        },
        JsonState::Active { mut data, num_brackets, in_string, escaped } => {
            assert(old(passthrough)@ + Seq::<char>::empty() =~= old(passthrough)@);
            push_char(&mut data, ch);
            if ch == '{' && !in_string {
                let n = if num_brackets < usize::MAX {
                    num_brackets + 1
                } else {
                    num_brackets
                };
                (JsonState::Active { data, num_brackets: n, in_string, escaped }, None)
            } else if ch == '}' && !in_string {
                if num_brackets <= 1 {
                    (JsonState::Idle, Some(data))
                } else {
                    (JsonState::Active { data, num_brackets: num_brackets - 1, in_string, escaped }, None)
                }
            } else if ch == '"' && !escaped {
                (JsonState::Active { data, num_brackets, in_string: !in_string, escaped }, None)
            } else if ch == '\\' && !escaped {
                (JsonState::Active { data, num_brackets, in_string, escaped: true }, None)
            } else {
                (JsonState::Active { data, num_brackets, in_string, escaped: false }, None)
            }
        },
        JsonState::MaybeIgnore { tick_count } => {
            push_char(passthrough, ch);
            if ch == '`' {
                let n = if tick_count < usize::MAX {
                    tick_count + 1
                } else {
                    tick_count
                };
                (JsonState::MaybeIgnore { tick_count: n }, None)
            } else {
                (JsonState::Ignore { num_ticks: tick_count, tick_count: 0 }, None)
            }
        },
        JsonState::Ignore { num_ticks, tick_count } => {
            push_char(passthrough, ch);
            if ch == '`' {
                if tick_count + 1 == num_ticks {
                    (JsonState::Idle, None)
                } else {
                    (JsonState::Ignore { num_ticks, tick_count: tick_count + 1 }, None)
                }
            } else {
                (JsonState::Ignore { num_ticks, tick_count: 0 }, None)
            }
        },
    }
}

} // verus!
