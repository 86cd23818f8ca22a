//! Key combinations, bindings, and the keymap that turns key presses into
//! command names, including multi-key sequences such as `gg`.

use vstd::prelude::*;
use crate::clock::{duration_since, spec_duration_since, Clock};
use crate::event::AppCommand;
use crate::text::{
    ascii_lowercase, is_ascii_chars, lowercase_of, spec_parse_unsigned, split_on, str_eq, strings_view, to_lowercase,
};

verus! {

#[derive(Clone, Copy, Debug, PartialEq, Eq, Hash, Structural)]
pub enum SerializableKeyCode {
    Char(char),
    F(u8),
    Enter,
    Esc,
    Tab,
    Backspace,
    Delete,
    Up,
    Down,
    Left,
    Right,
    Home,
    End,
    PageUp,
    PageDown,
    Space,
}

#[derive(Clone, Copy, Debug, PartialEq, Eq, Hash, Structural)]
pub struct Modifiers {
    pub ctrl: bool,
    pub alt: bool,
    pub shift: bool,
}

pub open spec fn no_modifiers() -> Modifiers {
    Modifiers { ctrl: false, alt: false, shift: false }
}

impl Default for Modifiers {
    fn default() -> (r: Self)
        ensures
            r == no_modifiers(),
    {
        Modifiers { ctrl: false, alt: false, shift: false }
    }
}

#[derive(Clone, Copy, Debug, PartialEq, Eq, Hash, Structural)]
pub struct KeyCombo {
    pub code: SerializableKeyCode,
    pub modifiers: Modifiers,
}

#[derive(Clone, Copy, Debug, PartialEq, Eq, Structural)]
pub enum KeyContext {
    Normal,
    Visual,
    Command,
    Search,
    Global,
}

impl Default for KeyContext {
    fn default() -> (r: Self)
        ensures
            r == KeyContext::Normal,
    {
        KeyContext::Normal
    }
}

#[derive(Debug)]
pub struct KeyBinding {
    pub key: KeyCombo,
    pub command: String,
    pub context: KeyContext,
    pub description: String,
}

/// What a key binding holds, as plain values.
pub struct BindingView {
    pub key: KeyCombo,
    pub command: Seq<char>,
    pub context: KeyContext,
    pub description: Seq<char>,
}

impl View for KeyBinding {
    type V = BindingView;

    open spec fn view(&self) -> BindingView {
        BindingView {
            key: self.key,
            command: self.command@,
            context: self.context,
            description: self.description@,
        }
    }
}

pub open spec fn bindings_view(v: Seq<KeyBinding>) -> Seq<BindingView> {
    v.map_values(|b: KeyBinding| b@)
}

impl Clone for KeyBinding {
    fn clone(&self) -> (r: Self)
        ensures
            r@ == self@,
    {
        KeyBinding {
            key: self.key,
            command: self.command.clone(),
            context: self.context,
            description: self.description.clone(),
        }
    }
}

/// Result of feeding one key to the keymap.
#[derive(Debug, Clone)]
pub enum KeymapResult {
    Command(String),
    Pending,
    Unhandled,
}

pub enum KeymapResultView {
    Command(Seq<char>),
    Pending,
    Unhandled,
}

impl View for KeymapResult {
    type V = KeymapResultView;

    open spec fn view(&self) -> KeymapResultView {
        match self {
            KeymapResult::Command(c) => KeymapResultView::Command(c@),
            KeymapResult::Pending => KeymapResultView::Pending,
            KeymapResult::Unhandled => KeymapResultView::Unhandled,
        }
    }
}

/// The keymap: single-key bindings searched in order, plus key sequences.
pub struct Keymap {
    bindings: Vec<KeyBinding>,
    sequence_buffer: Vec<KeyCombo>,
    sequence_bindings: Vec<(Vec<KeyCombo>, String)>,
    last_key_time: Option<u64>,
    sequence_timeout: u64,
    clock: Clock,
}

/// What a keymap holds, as plain values. Times are nanoseconds on the keymap's
/// own clock.
pub struct KeymapView {
    pub bindings: Seq<BindingView>,
    pub buffer: Seq<KeyCombo>,
    pub sequences: Map<Seq<KeyCombo>, Seq<char>>,
    pub last_key_time: Option<u64>,
    pub timeout: u64,
}

pub open spec fn sequence_entries_view(v: Seq<(Vec<KeyCombo>, String)>) -> Seq<(Seq<KeyCombo>, Seq<char>)> {
    v.map_values(|e: (Vec<KeyCombo>, String)| (e.0@, e.1@))
}

/// The map described by a list of (key sequence, command) entries; a later entry
/// wins over an earlier one with the same keys.
pub open spec fn entries_map(s: Seq<(Seq<KeyCombo>, Seq<char>)>) -> Map<Seq<KeyCombo>, Seq<char>>
    decreases s.len(),
{
    if s.len() == 0 {
        Map::empty()
    } else {
        entries_map(s.drop_last()).insert(s.last().0, s.last().1)
    }
}

/// No key sequence occurs twice in the list.
pub open spec fn keys_distinct(s: Seq<(Seq<KeyCombo>, Seq<char>)>) -> bool {
    forall|i: int, j: int| 0 <= i < j < s.len() ==> #[trigger] s[i].0 != #[trigger] s[j].0
}

impl View for Keymap {
    type V = KeymapView;

    closed spec fn view(&self) -> KeymapView {
        KeymapView {
            bindings: bindings_view(self.bindings@),
            buffer: self.sequence_buffer@,
            sequences: entries_map(sequence_entries_view(self.sequence_bindings@)),
            last_key_time: self.last_key_time,
            timeout: self.sequence_timeout,
        }
    }
}

impl Keymap {
    /// The keymap's internal invariant: no key sequence is registered twice,
    /// and pending keys time out after 500 ms.
    pub closed spec fn wf(&self) -> bool {
        &&& keys_distinct(sequence_entries_view(self.sequence_bindings@))
        &&& self.sequence_timeout == 500_000_000
    }

    /// Every well-formed keymap lets pending keys time out after 500 ms
    /// (timestamps are in nanoseconds).
    pub proof fn lemma_wf_timeout(&self)
        requires
            self.wf(),
        ensures
            self@.timeout == 500_000_000,
    {
    }
}


/// A binding applies to a key press in a context when the key matches and the
/// binding's context is that context or `Global`.
pub open spec fn binding_applies(b: BindingView, key: KeyCombo, ctx: KeyContext) -> bool {
    b.key == key && (b.context == ctx || b.context == KeyContext::Global)
}

/// The command of the first binding that applies, if any.
pub open spec fn spec_resolve(bs: Seq<BindingView>, key: KeyCombo, ctx: KeyContext) -> Option<
    Seq<char>,
>
    decreases bs.len(),
{
    if bs.len() == 0 {
        None
    } else if binding_applies(bs[0], key, ctx) {
        Some(bs[0].command)
    } else {
        spec_resolve(bs.drop_first(), key, ctx)
    }
}

/// Two bindings occupy the same slot when they have the same key and context.
pub open spec fn same_slot(a: BindingView, b: BindingView) -> bool {
    a.key == b.key && a.context == b.context
}

/// `bs` without the bindings in the slot of `u`, order kept.
pub open spec fn remove_slot(bs: Seq<BindingView>, u: BindingView) -> Seq<BindingView>
    decreases bs.len(),
{
    if bs.len() == 0 {
        bs
    } else if same_slot(bs.last(), u) {
        remove_slot(bs.drop_last(), u)
    } else {
        remove_slot(bs.drop_last(), u).push(bs.last())
    }
}

/// The bindings after merging the user bindings `us`, one after another: each
/// replaces the bindings in its slot and is appended at the end.
pub open spec fn spec_merge(bs: Seq<BindingView>, us: Seq<BindingView>) -> Seq<BindingView>
    decreases us.len(),
{
    if us.len() == 0 {
        bs
    } else {
        remove_slot(spec_merge(bs, us.drop_last()), us.last()).push(us.last())
    }
}

/// Some registered sequence is longer than `buf` and starts with it.
pub open spec fn is_proper_prefix_of_some(m: Map<Seq<KeyCombo>, Seq<char>>, buf: Seq<KeyCombo>) -> bool {
    exists|s: Seq<KeyCombo>|
        #[trigger] m.contains_key(s) && s.len() > buf.len() && s.take(buf.len() as int) == buf
}

pub open spec fn with_buffer(v: KeymapView, buf: Seq<KeyCombo>, last: Option<u64>) -> KeymapView {
    KeymapView {
        bindings: v.bindings,
        buffer: buf,
        sequences: v.sequences,
        last_key_time: last,
        timeout: v.timeout,
    }
}

/// The buffer a new key is appended to: the pending keys, unless more than the
/// timeout has passed since the last key.
pub open spec fn buffer_before(v: KeymapView, now: u64) -> Seq<KeyCombo> {
    if v.buffer.len() > 0 && v.last_key_time is Some && spec_duration_since(
        now,
        v.last_key_time->0,
    ) > v.timeout {
        Seq::empty()
    } else {
        v.buffer
    }
}

/// The keymap and result after feeding `key` in context `ctx` at time `now`.
pub open spec fn spec_feed(v: KeymapView, key: KeyCombo, ctx: KeyContext, now: u64) -> (
    KeymapView,
    KeymapResultView,
) {
    let buf = buffer_before(v, now).push(key);
    if v.sequences.contains_key(buf) {
        (with_buffer(v, Seq::empty(), Some(now)), KeymapResultView::Command(v.sequences[buf]))
    } else if is_proper_prefix_of_some(v.sequences, buf) {
        (with_buffer(v, buf, Some(now)), KeymapResultView::Pending)
    } else {
        (
            with_buffer(v, Seq::empty(), Some(now)),
            match spec_resolve(v.bindings, key, ctx) {
                Some(c) => KeymapResultView::Command(c),
                None => KeymapResultView::Unhandled,
            },
        )
    }
}

proof fn lemma_entries_map_dom(s: Seq<(Seq<KeyCombo>, Seq<char>)>, k: Seq<KeyCombo>)
    ensures
        entries_map(s).contains_key(k) <==> exists|i: int| 0 <= i < s.len() && #[trigger] s[i].0 == k,
    decreases s.len(),
{
    if s.len() > 0 {
        lemma_entries_map_dom(s.drop_last(), k);
        if entries_map(s).contains_key(k) {
            if k == s.last().0 {
                assert(s[s.len() - 1].0 == k);
            } else {
                let i = choose|i: int| 0 <= i < s.drop_last().len() && #[trigger] s.drop_last()[i].0 == k;
                assert(s[i].0 == k);
            }
        }
        if exists|i: int| 0 <= i < s.len() && #[trigger] s[i].0 == k {
            let i = choose|i: int| 0 <= i < s.len() && #[trigger] s[i].0 == k;
            if i < s.len() - 1 {
                assert(s.drop_last()[i].0 == k);
            }
        }
    }
}

proof fn lemma_entries_map_value(s: Seq<(Seq<KeyCombo>, Seq<char>)>, i: int)
    requires
        keys_distinct(s),
        0 <= i < s.len(),
    ensures
        entries_map(s).contains_key(s[i].0),
        entries_map(s)[s[i].0] == s[i].1,
    decreases s.len(),
{
    if i < s.len() - 1 {
        assert(keys_distinct(s.drop_last()));
        lemma_entries_map_value(s.drop_last(), i);
        assert(s[i].0 != s[s.len() - 1].0);
    }
}

proof fn lemma_entries_map_update(s: Seq<(Seq<KeyCombo>, Seq<char>)>, i: int, v: Seq<char>)
    requires
        keys_distinct(s),
        0 <= i < s.len(),
    ensures
        entries_map(s.update(i, (s[i].0, v))) == entries_map(s).insert(s[i].0, v),
        keys_distinct(s.update(i, (s[i].0, v))),
    decreases s.len(),
{
    let k = s[i].0;
    let t = s.update(i, (k, v));
    assert(keys_distinct(t)) by {
        assert forall|a: int, b: int| 0 <= a < b < t.len() implies #[trigger] t[a].0 != #[trigger] t[b].0 by {
            assert(s[a].0 != s[b].0);
        }
    }
    if i == s.len() - 1 {
        assert(t.drop_last() == s.drop_last());
        assert(entries_map(t) =~= entries_map(s).insert(k, v));
    } else {
        assert(keys_distinct(s.drop_last()));
        lemma_entries_map_update(s.drop_last(), i, v);
        assert(t.drop_last() == s.drop_last().update(i, (k, v)));
        assert(s.last().0 != k);
        assert(entries_map(t) =~= entries_map(s).insert(k, v));
    }
}

proof fn lemma_spec_resolve_skip(bs: Seq<BindingView>, i: int, key: KeyCombo, ctx: KeyContext)
    requires
        0 <= i < bs.len(),
        !binding_applies(bs[i], key, ctx),
    ensures
        spec_resolve(bs.skip(i), key, ctx) == spec_resolve(bs.skip(i + 1), key, ctx),
{
    assert(bs.skip(i).drop_first() == bs.skip(i + 1));
}

fn combos_eq(a: &Vec<KeyCombo>, b: &Vec<KeyCombo>) -> (r: bool)
    ensures
        r == (a@ == b@),
{
    if a.len() != b.len() {
        return false;
    }
    let mut i: usize = 0;
    while i < a.len()
        invariant
            i <= a.len(),
            a.len() == b.len(),
            forall|k: int| 0 <= k < i ==> a@[k] == b@[k],
        decreases a.len() - i,
    {
        if a[i] != b[i] {
            return false;
        }
        i = i + 1;
    }
    assert(a@ =~= b@);
    true
}

/// Whether `seq` is longer than `buf` and starts with it.
fn extends(seq: &Vec<KeyCombo>, buf: &Vec<KeyCombo>) -> (r: bool)
    ensures
        r == (seq@.len() > buf@.len() && seq@.take(buf@.len() as int) == buf@),
{
    if seq.len() <= buf.len() {
        return false;
    }
    let mut i: usize = 0;
    while i < buf.len()
        invariant
            i <= buf.len(),
            buf.len() < seq.len(),
            forall|k: int| 0 <= k < i ==> seq@[k] == buf@[k],
        decreases buf.len() - i,
    {
        if seq[i] != buf[i] {
            assert(seq@.take(buf@.len() as int)[i as int] != buf@[i as int]);
            return false;
        }
        i = i + 1;
    }
    assert(seq@.take(buf@.len() as int) =~= buf@);
    true
}

fn new_binding(b: &KeyBinding) -> (r: KeyBinding)
    ensures
        r@ == b@,
{
    b.clone()
}

impl Keymap {
    pub fn new(bindings: Vec<KeyBinding>) -> (r: Self)
        ensures
            r.wf(),
            r@.bindings == bindings_view(bindings@),
            r@.buffer == Seq::<KeyCombo>::empty(),
            r@.sequences == Map::<Seq<KeyCombo>, Seq<char>>::empty(),
            r@.last_key_time is None,
            r@.timeout == 500_000_000,
    {
        let r = Keymap {
            bindings,
            sequence_buffer: Vec::new(),
            sequence_bindings: Vec::new(),
            last_key_time: None,
            sequence_timeout: 500_000_000,
            clock: Clock::new(),
        };
        assert(sequence_entries_view(r.sequence_bindings@) =~= Seq::empty());
        r
    }

    /// The command bound to `key` in `context`.
    pub fn resolve(&self, key: &KeyCombo, context: &KeyContext) -> (r: Option<&str>)
        ensures
            match r {
                Some(s) => spec_resolve(self@.bindings, *key, *context) == Some(s@),
                None => spec_resolve(self@.bindings, *key, *context) is None,
            },
    {
        let ghost bs = bindings_view(self.bindings@);
        assert(bs.skip(0) == bs);
        let mut i: usize = 0;
        while i < self.bindings.len()
            invariant
                i <= self.bindings.len(),
                bs == bindings_view(self.bindings@),
                bs == self@.bindings,
                spec_resolve(bs, *key, *context) == spec_resolve(bs.skip(i as int), *key, *context),
            decreases self.bindings.len() - i,
        {
            let b = &self.bindings[i];
            if b.key == *key && (b.context == *context || b.context == KeyContext::Global) {
                assert(bs.skip(i as int)[0] == bs[i as int]);
                return Some(b.command.as_str());
            }
            proof {
                lemma_spec_resolve_skip(bs, i as int, *key, *context);
            }
            i = i + 1;
        }
        assert(bs.skip(i as int).len() == 0);
        None
    }

    /// Merges user bindings: each one replaces the bindings with the same key
    /// and context, and is appended.
    pub fn merge_user_config(&mut self, user_bindings: Vec<KeyBinding>)
        requires
            old(self).wf(),
        ensures
            final(self).wf(),
            final(self)@.bindings == spec_merge(old(self)@.bindings, bindings_view(user_bindings@)),
            final(self)@.buffer == old(self)@.buffer,
            final(self)@.sequences == old(self)@.sequences,
            final(self)@.last_key_time == old(self)@.last_key_time,
            final(self)@.timeout == old(self)@.timeout,
    {
        let ghost us = bindings_view(user_bindings@);
        let mut k: usize = 0;
        while k < user_bindings.len()
            invariant
                k <= user_bindings.len(),
                us == bindings_view(user_bindings@),
                self.wf(),
                self@.bindings == spec_merge(old(self)@.bindings, us.take(k as int)),
                self@.buffer == old(self)@.buffer,
                self@.sequences == old(self)@.sequences,
                self@.last_key_time == old(self)@.last_key_time,
                self@.timeout == old(self)@.timeout,
            decreases user_bindings.len() - k,
        {
            let ub = &user_bindings[k];
            let ghost before = bindings_view(self.bindings@);
            let mut kept: Vec<KeyBinding> = Vec::new();
            let mut j: usize = 0;
            while j < self.bindings.len()
                invariant
                    j <= self.bindings.len(),
                    before == bindings_view(self.bindings@),
                    bindings_view(kept@) == remove_slot(before.take(j as int), ub@),
                decreases self.bindings.len() - j,
            {
                let b = &self.bindings[j];
                assert(before.take(j + 1).drop_last() == before.take(j as int));
                if !(b.key == ub.key && b.context == ub.context) {
                    let nb = new_binding(b);
                    let ghost kv = bindings_view(kept@);
                    kept.push(nb);
                    assert(bindings_view(kept@) =~= kv.push(b@));
                }
                j = j + 1;
            }
            assert(before.take(self.bindings.len() as int) == before);
            let nu = new_binding(ub);
            let ghost kv = bindings_view(kept@);
            kept.push(nu);
            assert(bindings_view(kept@) =~= kv.push(ub@));
            self.bindings = kept;
            assert(us.take(k + 1).drop_last() == us.take(k as int));
            k = k + 1;
        }
        assert(us.take(user_bindings.len() as int) == us);
    }

    /// Forgets the keys of a sequence in progress.
    pub fn clear_sequence(&mut self)
        requires
            old(self).wf(),
        ensures
            final(self).wf(),
            final(self)@ == with_buffer(old(self)@, Seq::empty(), old(self)@.last_key_time),
    {
        self.sequence_buffer.clear();
    }

    fn find_sequence(&self, keys: &Vec<KeyCombo>) -> (r: Option<usize>)
        ensures
            match r {
                Some(i) => i < self.sequence_bindings@.len()
                    && sequence_entries_view(self.sequence_bindings@)[i as int].0 == keys@,
                None => forall|i: int|
                    0 <= i < self.sequence_bindings@.len() ==> #[trigger] sequence_entries_view(
                        self.sequence_bindings@,
                    )[i].0 != keys@,
            },
    {
        let mut i: usize = 0;
        while i < self.sequence_bindings.len()
            invariant
                i <= self.sequence_bindings.len(),
                forall|j: int|
                    0 <= j < i ==> #[trigger] sequence_entries_view(self.sequence_bindings@)[j].0
                        != keys@,
            decreases self.sequence_bindings.len() - i,
        {
            if combos_eq(&self.sequence_bindings[i].0, keys) {
                return Some(i);
            }
            i = i + 1;
        }
        None
    }

    /// Binds a key sequence to a command, replacing an earlier binding of the
    /// same sequence.
    pub fn register_sequence(&mut self, keys: Vec<KeyCombo>, command: String)
        requires
            old(self).wf(),
        ensures
            final(self).wf(),
            final(self)@.sequences == old(self)@.sequences.insert(keys@, command@),
            final(self)@.bindings == old(self)@.bindings,
            final(self)@.buffer == old(self)@.buffer,
            final(self)@.last_key_time == old(self)@.last_key_time,
            final(self)@.timeout == old(self)@.timeout,
    {
        let ghost s = sequence_entries_view(self.sequence_bindings@);
        match self.find_sequence(&keys) {
            Some(i) => {
                let ghost kv = keys@;
                let ghost cv = command@;
                self.sequence_bindings.set(i, (keys, command));
                proof {
                    lemma_entries_map_update(s, i as int, cv);
                    assert(sequence_entries_view(self.sequence_bindings@) =~= s.update(
                        i as int,
                        (s[i as int].0, cv),
                    ));
                }
            },
            None => {
                let ghost kv = keys@;
                let ghost cv = command@;
                self.sequence_bindings.push((keys, command));
                proof {
                    assert(sequence_entries_view(self.sequence_bindings@) =~= s.push((kv, cv)));
                    assert(sequence_entries_view(self.sequence_bindings@).drop_last() == s);
                    let t = sequence_entries_view(self.sequence_bindings@);
                    assert forall|a: int, b: int| 0 <= a < b < t.len() implies #[trigger] t[a].0
                        != #[trigger] t[b].0 by {
                        if b == t.len() - 1 {
                            assert(t[a] == s[a]);
                        } else {
                            assert(t[a] == s[a] && t[b] == s[b]);
                        }
                    }
                }
            },
        }
    }

    fn has_longer_sequence(&self, buf: &Vec<KeyCombo>) -> (r: bool)
        requires
            self.wf(),
        ensures
            r == is_proper_prefix_of_some(self@.sequences, buf@),
    {
        let ghost s = sequence_entries_view(self.sequence_bindings@);
        let mut i: usize = 0;
        while i < self.sequence_bindings.len()
            invariant
                i <= self.sequence_bindings.len(),
                s == sequence_entries_view(self.sequence_bindings@),
                forall|j: int|
                    0 <= j < i ==> !(#[trigger] s[j].0.len() > buf@.len() && s[j].0.take(
                        buf@.len() as int,
                    ) == buf@),
            decreases self.sequence_bindings.len() - i,
        {
            if extends(&self.sequence_bindings[i].0, buf) {
                proof {
                    lemma_entries_map_dom(s, s[i as int].0);
                }
                return true;
            }
            i = i + 1;
        }
        proof {
            if is_proper_prefix_of_some(self@.sequences, buf@) {
                let q = choose|q: Seq<KeyCombo>|
                    #[trigger] self@.sequences.contains_key(q) && q.len() > buf@.len() && q.take(
                        buf@.len() as int,
                    ) == buf@;
                lemma_entries_map_dom(s, q);
            }
        }
        false
    }

    /// Feeds one key pressed at time `now` (nanoseconds on the keymap's clock).
    pub fn feed_key_at(&mut self, key: KeyCombo, context: &KeyContext, now: u64) -> (r:
        KeymapResult)
        requires
            old(self).wf(),
        ensures
            final(self).wf(),
            (final(self)@, r@) == spec_feed(old(self)@, key, *context, now),
    {
        let ghost v = self@;
        if self.sequence_buffer.len() > 0 {
            if let Some(last_time) = self.last_key_time {
                if duration_since(now, last_time) > self.sequence_timeout {
                    self.sequence_buffer.clear();
                }
            }
        }
        self.last_key_time = Some(now);
        self.sequence_buffer.push(key);
        assert(self.sequence_buffer@ == buffer_before(v, now).push(key));
        let ghost s = sequence_entries_view(self.sequence_bindings@);
        let buf = &self.sequence_buffer;
        match self.find_sequence(buf) {
            Some(i) => {
                let cmd = self.sequence_bindings[i].1.clone();
                proof {
                    lemma_entries_map_value(s, i as int);
                }
                self.sequence_buffer.clear();
                return KeymapResult::Command(cmd);
            },
            None => {
                proof {
                    lemma_entries_map_dom(s, self.sequence_buffer@);
                }
            },
        }
        if self.has_longer_sequence(&self.sequence_buffer) {
            return KeymapResult::Pending;
        }
        self.sequence_buffer.clear();
        match self.resolve(&key, context) {
            Some(cmd) => KeymapResult::Command(cmd.to_owned()),
            None => KeymapResult::Unhandled,
        }
    }

    /// Feeds one key pressed now. What happens depends on how long ago the last
    /// key came, so the contract holds for some reading of the clock.
    pub fn feed_key(&mut self, key: KeyCombo, context: &KeyContext) -> (r: KeymapResult)
        requires
            old(self).wf(),
        ensures
            final(self).wf(),
            exists|now: u64| (final(self)@, r@) == spec_feed(old(self)@, key, *context, now),
    {
        let now = self.clock.now_nanos();
        self.feed_key_at(key, context, now)
    }
}


/// The modifiers a lowercased modifier name sets.
pub open spec fn spec_modifier_update(m: Modifiers, part: Seq<char>) -> Modifiers {
    if part == "ctrl"@ || part == "c"@ {
        Modifiers { ctrl: true, ..m }
    } else if part == "alt"@ || part == "a"@ {
        Modifiers { alt: true, ..m }
    } else if part == "shift"@ || part == "s"@ {
        Modifiers { shift: true, ..m }
    } else {
        m
    }
}

/// The modifiers named by a list of lowercased modifier names; unknown names are
/// ignored.
pub open spec fn spec_modifiers_from(parts: Seq<Seq<char>>) -> Modifiers
    decreases parts.len(),
{
    if parts.len() == 0 {
        no_modifiers()
    } else {
        spec_modifier_update(spec_modifiers_from(parts.drop_last()), parts.last())
    }
}

/// The key code a lowercased key name denotes. A name of more than one
/// character starting with `f` is a function key whose number must parse as a
/// `u8`; any other name of exactly one byte is that character.
pub open spec fn spec_key_code(s: Seq<char>) -> Option<SerializableKeyCode> {
    if s == "enter"@ || s == "return"@ || s == "cr"@ {
        Some(SerializableKeyCode::Enter)
    } else if s == "esc"@ || s == "escape"@ {
        Some(SerializableKeyCode::Esc)
    } else if s == "tab"@ {
        Some(SerializableKeyCode::Tab)
    } else if s == "backspace"@ || s == "bs"@ {
        Some(SerializableKeyCode::Backspace)
    } else if s == "delete"@ || s == "del"@ {
        Some(SerializableKeyCode::Delete)
    } else if s == "up"@ {
        Some(SerializableKeyCode::Up)
    } else if s == "down"@ {
        Some(SerializableKeyCode::Down)
    } else if s == "left"@ {
        Some(SerializableKeyCode::Left)
    } else if s == "right"@ {
        Some(SerializableKeyCode::Right)
    } else if s == "home"@ {
        Some(SerializableKeyCode::Home)
    } else if s == "end"@ {
        Some(SerializableKeyCode::End)
    } else if s == "pageup"@ || s == "pgup"@ {
        Some(SerializableKeyCode::PageUp)
    } else if s == "pagedown"@ || s == "pgdn"@ {
        Some(SerializableKeyCode::PageDown)
    } else if s == "space"@ {
        Some(SerializableKeyCode::Space)
    } else if s.len() > 1 && s[0] == 'f' {
        match spec_parse_unsigned(s.skip(1), 255) {
            Some(n) => Some(SerializableKeyCode::F(n as u8)),
            None => None,
        }
    } else if s.len() == 1 && (s[0] as u32) < 128 {
        Some(SerializableKeyCode::Char(s[0]))
    } else {
        None
    }
}

/// The key combination a key specification such as `ctrl+d` or `F5` denotes:
/// the pieces between `+` signs, all but the last naming modifiers, each piece
/// compared after lowercasing.
pub open spec fn spec_parse_key_spec(spec: Seq<char>) -> Option<KeyCombo> {
    let parts = split_on(spec, '+');
    let mods = if parts.len() == 1 {
        no_modifiers()
    } else {
        spec_modifiers_from(parts.take(parts.len() - 1).map_values(|p: Seq<char>| lowercase_of(p)))
    };
    match spec_key_code(lowercase_of(parts.last())) {
        Some(code) => Some(KeyCombo { code, modifiers: mods }),
        None => None,
    }
}

/// The modifiers named by already lowercased modifier names.
pub fn modifiers_from_lowercase(parts: &Vec<String>) -> (m: Modifiers)
    ensures
        m == spec_modifiers_from(strings_view(parts@)),
{
    let mut m = Modifiers { ctrl: false, alt: false, shift: false };
    let mut i: usize = 0;
    while i < parts.len()
        invariant
            i <= parts.len(),
            m == spec_modifiers_from(strings_view(parts@).take(i as int)),
        decreases parts.len() - i,
    {
        let p = parts[i].as_str();
        assert(strings_view(parts@).take(i + 1).drop_last() == strings_view(parts@).take(i as int));
        if str_eq(p, "ctrl") || str_eq(p, "c") {
            m.ctrl = true;
        } else if str_eq(p, "alt") || str_eq(p, "a") {
            m.alt = true;
        } else if str_eq(p, "shift") || str_eq(p, "s") {
            m.shift = true;
        }
        i = i + 1;
    }
    assert(strings_view(parts@).take(parts.len() as int) == strings_view(parts@));
    m
}

/// The key code an already lowercased key name denotes.
pub fn key_code_from_lowercase(s: &str) -> (r: Option<SerializableKeyCode>)
    ensures
        r == spec_key_code(s@),
{
    if str_eq(s, "enter") || str_eq(s, "return") || str_eq(s, "cr") {
        return Some(SerializableKeyCode::Enter);
    } else if str_eq(s, "esc") || str_eq(s, "escape") {
        return Some(SerializableKeyCode::Esc);
    } else if str_eq(s, "tab") {
        return Some(SerializableKeyCode::Tab);
    } else if str_eq(s, "backspace") || str_eq(s, "bs") {
        return Some(SerializableKeyCode::Backspace);
    } else if str_eq(s, "delete") || str_eq(s, "del") {
        return Some(SerializableKeyCode::Delete);
    } else if str_eq(s, "up") {
        return Some(SerializableKeyCode::Up);
    } else if str_eq(s, "down") {
        return Some(SerializableKeyCode::Down);
    } else if str_eq(s, "left") {
        return Some(SerializableKeyCode::Left);
    } else if str_eq(s, "right") {
        return Some(SerializableKeyCode::Right);
    } else if str_eq(s, "home") {
        return Some(SerializableKeyCode::Home);
    } else if str_eq(s, "end") {
        return Some(SerializableKeyCode::End);
    } else if str_eq(s, "pageup") || str_eq(s, "pgup") {
        return Some(SerializableKeyCode::PageUp);
    } else if str_eq(s, "pagedown") || str_eq(s, "pgdn") {
        return Some(SerializableKeyCode::PageDown);
    } else if str_eq(s, "space") {
        return Some(SerializableKeyCode::Space);
    }
    let chars = crate::text::chars_of(s);
    if chars.len() > 1 && chars[0] == 'f' {
        let rest = chars.as_slice().split_at(1).1;
        assert(rest@ == s@.skip(1));
        match crate::text::parse_unsigned(rest, 255) {
            Some(n) => Some(SerializableKeyCode::F(n as u8)),
            None => None,
        }
    } else if chars.len() == 1 && (chars[0] as u32) < 128 {
        Some(SerializableKeyCode::Char(chars[0]))
    } else {
        None
    }
}

/// Parses a key specification such as `ctrl+d`, `Enter` or `F5`.
pub fn parse_key_spec(spec: &str) -> (r: Option<KeyCombo>)
    ensures
        r == spec_parse_key_spec(spec@),
{
    let parts = crate::text::split_str(spec, '+');
    let ghost pv = strings_view(parts@);
    let n = parts.len();
    let mut lowered: Vec<String> = Vec::new();
    if n > 1 {
        let mut i: usize = 0;
        while i < n - 1
            invariant
                n == parts.len(),
                n > 1,
                i <= n - 1,
                pv == strings_view(parts@),
                strings_view(lowered@) == pv.take(i as int).map_values(|p: Seq<char>| lowercase_of(p)),
            decreases n - 1 - i,
        {
            let l = to_lowercase(parts[i].as_str());
            let ghost before = strings_view(lowered@);
            lowered.push(l);
            assert(pv[i as int] == parts@[i as int]@);
            assert(pv.take(i + 1).map_values(|p: Seq<char>| lowercase_of(p)) =~= pv.take(
                i as int,
            ).map_values(|p: Seq<char>| lowercase_of(p)).push(lowercase_of(pv[i as int])));
            assert(strings_view(lowered@) =~= before.push(l@));
            i = i + 1;
        }
    }
    let mods = if n == 1 {
        Modifiers { ctrl: false, alt: false, shift: false }
    } else {
        modifiers_from_lowercase(&lowered)
    };
    let key_part = to_lowercase(parts[n - 1].as_str());
    match key_code_from_lowercase(key_part.as_str()) {
        Some(code) => Some(KeyCombo { code, modifiers: mods }),
        None => None,
    }
}

/// Key specifications are case-insensitive: an ASCII specification denotes the
/// same key combination as its lowercase form (so `G` is the plain key `g`,
/// and `Ctrl+D` is `ctrl+d`).
pub proof fn law_key_spec_case_insensitive(spec: Seq<char>)
    requires
        is_ascii_chars(spec),
    ensures
        spec_parse_key_spec(spec) == spec_parse_key_spec(ascii_lowercase(spec)),
{
    let parts = split_on(spec, '+');
    let lspec = ascii_lowercase(spec);
    let lparts = split_on(lspec, '+');
    crate::text::lemma_split_on_ascii_lowercase(spec, '+');
    crate::text::lemma_split_on_ascii(spec, '+');
    crate::text::lemma_split_on_nonempty(spec, '+');
    assert(lparts == parts.map_values(|p: Seq<char>| ascii_lowercase(p)));
    assert forall|i: int| 0 <= i < parts.len() implies lowercase_of(#[trigger] lparts[i])
        == lowercase_of(parts[i]) by {
        assert(is_ascii_chars(parts[i]));
        crate::text::lemma_ascii_lowercase_idempotent(parts[i]);
        assert(lparts[i] == ascii_lowercase(parts[i]));
    }
    let n = parts.len();
    assert(lparts.last() == lparts[n - 1]);
    assert(lowercase_of(lparts.last()) == lowercase_of(parts.last()));
    assert(lparts.take(n - 1).map_values(|p: Seq<char>| lowercase_of(p)) =~= parts.take(
        n - 1,
    ).map_values(|p: Seq<char>| lowercase_of(p)));
}

proof fn lemma_split_on_no_sep_tail(a: Seq<char>, s: Seq<char>, sep: char)
    requires
        forall|i: int| 0 <= i < s.len() ==> #[trigger] s[i] != sep,
    ensures
        split_on(a + s, sep) == split_on(a, sep).update(
            split_on(a, sep).len() - 1,
            split_on(a, sep).last() + s,
        ),
    decreases s.len(),
{
    crate::text::lemma_split_on_nonempty(a, sep);
    let pa = split_on(a, sep);
    if s.len() == 0 {
        assert(a + s =~= a);
        assert(pa.last() + s =~= pa.last());
        assert(pa.update(pa.len() - 1, pa.last() + s) =~= pa);
    } else {
        assert forall|i: int| 0 <= i < s.drop_last().len() implies #[trigger] s.drop_last()[i] != sep by {
            assert(s.drop_last()[i] == s[i]);
        }
        lemma_split_on_no_sep_tail(a, s.drop_last(), sep);
        assert((a + s).drop_last() =~= a + s.drop_last());
        assert((a + s).last() == s.last());
        assert(s.last() == s[s.len() - 1]);
        let prev = split_on(a + s.drop_last(), sep);
        assert(prev.last() == pa.last() + s.drop_last());
        assert((pa.last() + s.drop_last()).push(s.last()) =~= pa.last() + s);
        assert(prev.update(prev.len() - 1, prev.last().push(s.last())) =~= pa.update(
            pa.len() - 1,
            pa.last() + s,
        ));
    }
}

/// A piece without the separator splits into itself.
proof fn lemma_split_on_single(s: Seq<char>, sep: char)
    requires
        forall|i: int| 0 <= i < s.len() ==> #[trigger] s[i] != sep,
    ensures
        split_on(s, sep) == seq![s],
{
    let e = Seq::<char>::empty();
    lemma_split_on_no_sep_tail(e, s, sep);
    assert(e + s =~= s);
    assert(split_on(e, sep) == seq![e]);
    assert(e + s =~= s);
    assert(seq![e].update(0, e + s) =~= seq![s]);
}

/// Writing a modifier name and `+` before a key specification without `+`
/// sets exactly that modifier: `ctrl`/`c` the control key, `alt`/`a` the alt
/// key, `shift`/`s` the shift key; the key itself is unchanged. A
/// specification without `+` has no modifiers.
pub proof fn law_modifier_prefix(name: Seq<char>, key: Seq<char>)
    requires
        name == "ctrl"@ || name == "c"@ || name == "alt"@ || name == "a"@ || name == "shift"@
            || name == "s"@,
        forall|i: int| 0 <= i < key.len() ==> #[trigger] key[i] != '+',
    ensures
        spec_parse_key_spec(name + "+"@ + key) == match spec_parse_key_spec(key) {
            Some(k) => Some(
                KeyCombo {
                    code: k.code,
                    modifiers: Modifiers {
                        ctrl: name == "ctrl"@ || name == "c"@,
                        alt: name == "alt"@ || name == "a"@,
                        shift: name == "shift"@ || name == "s"@,
                    },
                },
            ),
            None => None,
        },
        spec_parse_key_spec(key) matches Some(k) ==> k.modifiers == (Modifiers {
            ctrl: false,
            alt: false,
            shift: false,
        }),
{
    reveal_strlit("ctrl");
    reveal_strlit("c");
    reveal_strlit("alt");
    reveal_strlit("a");
    reveal_strlit("shift");
    reveal_strlit("s");
    reveal_strlit("+");
    assert forall|i: int| 0 <= i < name.len() implies #[trigger] name[i] != '+' by {}
    lemma_split_on_single(name, '+');
    lemma_split_on_single(key, '+');
    let a = name + "+"@;
    assert(a.drop_last() =~= name);
    assert(a.last() == '+');
    assert(split_on(a, '+') =~= seq![name, Seq::<char>::empty()]);
    lemma_split_on_no_sep_tail(a, key, '+');
    let parts = split_on(a + key, '+');
    assert(Seq::<char>::empty() + key =~= key);
    assert(parts =~= seq![name, key]);
    assert(is_ascii_chars(name));
    assert(ascii_lowercase(name) =~= name);
    assert(lowercase_of(name) == name);
    assert(parts.take(1).map_values(|p: Seq<char>| lowercase_of(p)) =~= seq![name]);
    let ms = seq![name];
    assert(ms.drop_last() =~= Seq::<Seq<char>>::empty());
    assert(spec_modifiers_from(Seq::<Seq<char>>::empty()) == no_modifiers());
    assert(spec_modifiers_from(ms.drop_last()) == no_modifiers());
    assert(ms.last() == name);
    assert(spec_modifiers_from(ms) == spec_modifier_update(no_modifiers(), name));
    assert(parts.last() == key);
    assert(split_on(key, '+').last() == key);
}

/// A key specification of one lowercase letter or digit is that key, with no
/// modifiers; an uppercase letter is the same key as its lowercase form.
pub proof fn law_single_key(c: char)
    requires
        ('a' <= c && c <= 'z') || ('0' <= c && c <= '9') || ('A' <= c && c <= 'Z'),
    ensures
        ('a' <= c && c <= 'z') || ('0' <= c && c <= '9') ==> spec_parse_key_spec(seq![c]) == Some(
            KeyCombo {
                code: SerializableKeyCode::Char(c),
                modifiers: Modifiers { ctrl: false, alt: false, shift: false },
            },
        ),
        'A' <= c && c <= 'Z' ==> spec_parse_key_spec(seq![c]) == spec_parse_key_spec(
            seq![((c as u32) + 32) as char],
        ),
{
    reveal_strlit("enter");
    reveal_strlit("return");
    reveal_strlit("cr");
    reveal_strlit("esc");
    reveal_strlit("escape");
    reveal_strlit("tab");
    reveal_strlit("backspace");
    reveal_strlit("bs");
    reveal_strlit("delete");
    reveal_strlit("del");
    reveal_strlit("up");
    reveal_strlit("down");
    reveal_strlit("left");
    reveal_strlit("right");
    reveal_strlit("home");
    reveal_strlit("end");
    reveal_strlit("pageup");
    reveal_strlit("pgup");
    reveal_strlit("pagedown");
    reveal_strlit("pgdn");
    reveal_strlit("space");
    let s = seq![c];
    assert forall|i: int| 0 <= i < s.len() implies #[trigger] s[i] != '+' by {}
    lemma_split_on_single(s, '+');
    assert(is_ascii_chars(s));
    if 'A' <= c && c <= 'Z' {
        let l = ((c as u32) + 32) as char;
        assert(ascii_lowercase(s) =~= seq![l]);
        law_key_spec_case_insensitive(s);
    } else {
        assert(ascii_lowercase(s) =~= s);
        assert(split_on(s, '+').last() == s);
        assert(lowercase_of(s) == s);
        assert(s.len() == 1);
    }
}

/// The command a built-in command name stands for.
pub open spec fn spec_builtin_command(c: Seq<char>) -> Option<AppCommand> {
    if c == "cursor_up"@ {
        Some(AppCommand::CursorUp)
    } else if c == "cursor_down"@ {
        Some(AppCommand::CursorDown)
    } else if c == "cursor_top"@ {
        Some(AppCommand::CursorTop)
    } else if c == "cursor_bottom"@ {
        Some(AppCommand::CursorBottom)
    } else if c == "page_up"@ {
        Some(AppCommand::PageUp)
    } else if c == "page_down"@ {
        Some(AppCommand::PageDown)
    } else if c == "enter_directory"@ {
        Some(AppCommand::EnterDirectory)
    } else if c == "parent_directory"@ {
        Some(AppCommand::ParentDirectory)
    } else if c == "go_back"@ {
        Some(AppCommand::GoBack)
    } else if c == "go_forward"@ {
        Some(AppCommand::GoForward)
    } else if c == "toggle_select"@ {
        Some(AppCommand::ToggleSelect)
    } else if c == "select_all"@ {
        Some(AppCommand::SelectAll)
    } else if c == "clear_selection"@ {
        Some(AppCommand::ClearSelection)
    } else if c == "visual_mode"@ {
        Some(AppCommand::VisualMode)
    } else if c == "normal_mode"@ {
        Some(AppCommand::NormalMode)
    } else if c == "copy"@ {
        Some(AppCommand::Copy)
    } else if c == "cut"@ {
        Some(AppCommand::Cut)
    } else if c == "paste"@ {
        Some(AppCommand::Paste)
    } else if c == "delete"@ {
        Some(AppCommand::Delete)
    } else if c == "rename"@ {
        Some(AppCommand::Rename)
    } else if c == "create_file"@ {
        Some(AppCommand::CreateFile)
    } else if c == "create_dir"@ {
        Some(AppCommand::CreateDir)
    } else if c == "sort_next"@ {
        Some(AppCommand::SortNext)
    } else if c == "toggle_sort_order"@ {
        Some(AppCommand::ToggleSortOrder)
    } else if c == "toggle_preview"@ {
        Some(AppCommand::TogglePreview)
    } else if c == "toggle_hidden"@ {
        Some(AppCommand::ToggleHidden)
    } else if c == "refresh"@ {
        Some(AppCommand::Refresh)
    } else if c == "search"@ {
        Some(AppCommand::SearchMode)
    } else if c == "filter"@ {
        Some(AppCommand::FilterMode)
    } else if c == "search_next"@ {
        Some(AppCommand::SearchNext)
    } else if c == "search_prev"@ {
        Some(AppCommand::SearchPrev)
    } else if c == "confirm"@ {
        Some(AppCommand::ConfirmInput)
    } else if c == "cancel"@ {
        Some(AppCommand::CancelInput)
    } else if c == "quit"@ {
        Some(AppCommand::Quit)
    } else if c == "force_quit"@ {
        Some(AppCommand::ForceQuit)
    } else if c == "command_mode"@ {
        Some(AppCommand::CommandMode)
    } else {
        None
    }
}

/// The command `cmd` is a plugin command named `name`, with no plugin and no
/// arguments given.
pub open spec fn is_plugin_command(cmd: AppCommand, name: Seq<char>) -> bool {
    match cmd {
        AppCommand::PluginCommand { plugin, command, args } => plugin@.len() == 0 && command@
            == name && args@.len() == 0,
        _ => false,
    }
}

/// Maps a command name to a command; names that are not built in are routed to
/// the plugin system.
pub fn command_to_app_command(cmd: &str) -> (r: Option<AppCommand>)
    ensures
        r is Some,
        spec_builtin_command(cmd@) is Some ==> r == spec_builtin_command(cmd@),
        spec_builtin_command(cmd@) is None ==> is_plugin_command(r->0, cmd@),
{
    if str_eq(cmd, "cursor_up") {
        Some(AppCommand::CursorUp)
    } else if str_eq(cmd, "cursor_down") {
        Some(AppCommand::CursorDown)
    } else if str_eq(cmd, "cursor_top") {
        Some(AppCommand::CursorTop)
    } else if str_eq(cmd, "cursor_bottom") {
        Some(AppCommand::CursorBottom)
    } else if str_eq(cmd, "page_up") {
        Some(AppCommand::PageUp)
    } else if str_eq(cmd, "page_down") {
        Some(AppCommand::PageDown)
    } else if str_eq(cmd, "enter_directory") {
        Some(AppCommand::EnterDirectory)
    } else if str_eq(cmd, "parent_directory") {
        Some(AppCommand::ParentDirectory)
    } else if str_eq(cmd, "go_back") {
        Some(AppCommand::GoBack)
    } else if str_eq(cmd, "go_forward") {
        Some(AppCommand::GoForward)
    } else if str_eq(cmd, "toggle_select") {
        Some(AppCommand::ToggleSelect)
    } else if str_eq(cmd, "select_all") {
        Some(AppCommand::SelectAll)
    } else if str_eq(cmd, "clear_selection") {
        Some(AppCommand::ClearSelection)
    } else if str_eq(cmd, "visual_mode") {
        Some(AppCommand::VisualMode)
    } else if str_eq(cmd, "normal_mode") {
        Some(AppCommand::NormalMode)
    } else if str_eq(cmd, "copy") {
        Some(AppCommand::Copy)
    } else if str_eq(cmd, "cut") {
        Some(AppCommand::Cut)
    } else if str_eq(cmd, "paste") {
        Some(AppCommand::Paste)
    } else if str_eq(cmd, "delete") {
        Some(AppCommand::Delete)
    } else if str_eq(cmd, "rename") {
        Some(AppCommand::Rename)
    } else if str_eq(cmd, "create_file") {
        Some(AppCommand::CreateFile)
    } else if str_eq(cmd, "create_dir") {
        Some(AppCommand::CreateDir)
    } else if str_eq(cmd, "sort_next") {
        Some(AppCommand::SortNext)
    } else if str_eq(cmd, "toggle_sort_order") {
        Some(AppCommand::ToggleSortOrder)
    } else if str_eq(cmd, "toggle_preview") {
        Some(AppCommand::TogglePreview)
    } else if str_eq(cmd, "toggle_hidden") {
        Some(AppCommand::ToggleHidden)
    } else if str_eq(cmd, "refresh") {
        Some(AppCommand::Refresh)
    } else if str_eq(cmd, "search") {
        Some(AppCommand::SearchMode)
    } else if str_eq(cmd, "filter") {
        Some(AppCommand::FilterMode)
    } else if str_eq(cmd, "search_next") {
        Some(AppCommand::SearchNext)
    } else if str_eq(cmd, "search_prev") {
        Some(AppCommand::SearchPrev)
    } else if str_eq(cmd, "confirm") {
        Some(AppCommand::ConfirmInput)
    } else if str_eq(cmd, "cancel") {
        Some(AppCommand::CancelInput)
    } else if str_eq(cmd, "quit") {
        Some(AppCommand::Quit)
    } else if str_eq(cmd, "force_quit") {
        Some(AppCommand::ForceQuit)
    } else if str_eq(cmd, "command_mode") {
        Some(AppCommand::CommandMode)
    } else {
        Some(AppCommand::PluginCommand {
            plugin: String::new(),
            command: cmd.to_owned(),
            args: Vec::new(),
        })
    }
}


pub open spec fn binding_view_of(key: KeyCombo, command: Seq<char>, context: KeyContext) -> BindingView {
    BindingView { key, command, context, description: Seq::empty() }
}

pub open spec fn plain_binding(ch: char, command: Seq<char>, context: KeyContext) -> BindingView {
    binding_view_of(KeyCombo { code: SerializableKeyCode::Char(ch), modifiers: no_modifiers() }, command, context)
}

pub open spec fn shift_binding(ch: char, command: Seq<char>, context: KeyContext) -> BindingView {
    binding_view_of(
        KeyCombo {
            code: SerializableKeyCode::Char(ch),
            modifiers: Modifiers { ctrl: false, alt: false, shift: true },
        },
        command,
        context,
    )
}

pub open spec fn ctrl_binding(ch: char, command: Seq<char>, context: KeyContext) -> BindingView {
    binding_view_of(
        KeyCombo {
            code: SerializableKeyCode::Char(ch),
            modifiers: Modifiers { ctrl: true, alt: false, shift: false },
        },
        command,
        context,
    )
}

pub open spec fn code_binding(code: SerializableKeyCode, command: Seq<char>, context: KeyContext) -> BindingView {
    binding_view_of(KeyCombo { code, modifiers: no_modifiers() }, command, context)
}

/// The built-in single-key bindings, in search order.
pub open spec fn default_bindings() -> Seq<BindingView> {
    seq![
        plain_binding('j', "cursor_down"@, KeyContext::Normal),
        plain_binding('k', "cursor_up"@, KeyContext::Normal),
        plain_binding('h', "parent_directory"@, KeyContext::Normal),
        plain_binding('l', "enter_directory"@, KeyContext::Normal),
        code_binding(SerializableKeyCode::Up, "cursor_up"@, KeyContext::Normal),
        code_binding(SerializableKeyCode::Down, "cursor_down"@, KeyContext::Normal),
        code_binding(SerializableKeyCode::Left, "parent_directory"@, KeyContext::Normal),
        code_binding(SerializableKeyCode::Right, "enter_directory"@, KeyContext::Normal),
        code_binding(SerializableKeyCode::Enter, "enter_directory"@, KeyContext::Normal),
        code_binding(SerializableKeyCode::PageUp, "page_up"@, KeyContext::Normal),
        code_binding(SerializableKeyCode::PageDown, "page_down"@, KeyContext::Normal),
        ctrl_binding('d', "page_down"@, KeyContext::Normal),
        ctrl_binding('u', "page_up"@, KeyContext::Normal),
        code_binding(SerializableKeyCode::Home, "cursor_top"@, KeyContext::Normal),
        code_binding(SerializableKeyCode::End, "cursor_bottom"@, KeyContext::Normal),
        shift_binding('G', "cursor_bottom"@, KeyContext::Normal),
        code_binding(SerializableKeyCode::Space, "toggle_select"@, KeyContext::Normal),
        plain_binding('v', "visual_mode"@, KeyContext::Normal),
        plain_binding('p', "paste"@, KeyContext::Normal),
        plain_binding('r', "rename"@, KeyContext::Normal),
        plain_binding('a', "create_file"@, KeyContext::Normal),
        shift_binding('A', "create_dir"@, KeyContext::Normal),
        plain_binding('d', "delete"@, KeyContext::Normal),
        plain_binding('y', "copy"@, KeyContext::Normal),
        plain_binding('x', "cut"@, KeyContext::Normal),
        plain_binding('.', "toggle_hidden"@, KeyContext::Normal),
        plain_binding('s', "sort_next"@, KeyContext::Normal),
        shift_binding('S', "toggle_sort_order"@, KeyContext::Normal),
        ctrl_binding('r', "refresh"@, KeyContext::Normal),
        ctrl_binding('p', "toggle_preview"@, KeyContext::Normal),
        plain_binding('/', "search"@, KeyContext::Normal),
        plain_binding('f', "filter"@, KeyContext::Normal),
        plain_binding(':', "command_mode"@, KeyContext::Normal),
        plain_binding('q', "quit"@, KeyContext::Normal),
        ctrl_binding('c', "force_quit"@, KeyContext::Global),
        plain_binding('j', "cursor_down"@, KeyContext::Visual),
        plain_binding('k', "cursor_up"@, KeyContext::Visual),
        code_binding(SerializableKeyCode::Esc, "normal_mode"@, KeyContext::Visual),
        plain_binding('y', "copy"@, KeyContext::Visual),
        plain_binding('d', "delete"@, KeyContext::Visual),
        plain_binding('x', "cut"@, KeyContext::Visual),
        code_binding(SerializableKeyCode::Enter, "confirm"@, KeyContext::Search),
        code_binding(SerializableKeyCode::Esc, "cancel"@, KeyContext::Search),
        ctrl_binding('n', "search_next"@, KeyContext::Search),
        ctrl_binding('p', "search_prev"@, KeyContext::Search),
    ]
}

/// Every default binding, and the default `gg` sequence, names a built-in
/// command: none of them is routed to the plugin system.
pub proof fn law_default_commands_are_builtin()
    ensures
        forall|i: int|
            0 <= i < default_bindings().len() ==> #[trigger] spec_builtin_command(
                default_bindings()[i].command,
            ) is Some && !(spec_builtin_command(default_bindings()[i].command)->0 is PluginCommand),
        spec_builtin_command("cursor_top"@) == Some(AppCommand::CursorTop),
{
    reveal_strlit("cursor_up");
    reveal_strlit("cursor_down");
    reveal_strlit("cursor_top");
    reveal_strlit("cursor_bottom");
    reveal_strlit("page_up");
    reveal_strlit("page_down");
    reveal_strlit("enter_directory");
    reveal_strlit("parent_directory");
    reveal_strlit("go_back");
    reveal_strlit("go_forward");
    reveal_strlit("toggle_select");
    reveal_strlit("select_all");
    reveal_strlit("clear_selection");
    reveal_strlit("visual_mode");
    reveal_strlit("normal_mode");
    reveal_strlit("copy");
    reveal_strlit("cut");
    reveal_strlit("paste");
    reveal_strlit("delete");
    reveal_strlit("rename");
    reveal_strlit("create_file");
    reveal_strlit("create_dir");
    reveal_strlit("sort_next");
    reveal_strlit("toggle_sort_order");
    reveal_strlit("toggle_preview");
    reveal_strlit("toggle_hidden");
    reveal_strlit("refresh");
    reveal_strlit("search");
    reveal_strlit("filter");
    reveal_strlit("search_next");
    reveal_strlit("search_prev");
    reveal_strlit("confirm");
    reveal_strlit("cancel");
    reveal_strlit("quit");
    reveal_strlit("force_quit");
    reveal_strlit("command_mode");
    assert forall|i: int| 0 <= i < default_bindings().len() implies #[trigger] spec_builtin_command(
        default_bindings()[i].command,
    ) is Some && !(spec_builtin_command(default_bindings()[i].command)->0 is PluginCommand) by {}
    assert("cursor_top"@.len() == 10);
    assert("cursor_up"@.len() == 9);
    assert("cursor_top"@ != "cursor_up"@);
    assert("cursor_top"@ != "cursor_down"@);
}

/// The key `g` with no modifiers.
pub open spec fn key_g() -> KeyCombo {
    KeyCombo { code: SerializableKeyCode::Char('g'), modifiers: no_modifiers() }
}

fn kb(ch: char, command: &str, context: KeyContext) -> (r: KeyBinding)
    ensures
        r@ == plain_binding(ch, command@, context),
{
    KeyBinding {
        key: KeyCombo {
            code: SerializableKeyCode::Char(ch),
            modifiers: Modifiers { ctrl: false, alt: false, shift: false },
        },
        command: command.to_owned(),
        context,
        description: String::new(),
    }
}

fn kb_shift(ch: char, command: &str, context: KeyContext) -> (r: KeyBinding)
    ensures
        r@ == shift_binding(ch, command@, context),
{
    KeyBinding {
        key: KeyCombo {
            code: SerializableKeyCode::Char(ch),
            modifiers: Modifiers { ctrl: false, alt: false, shift: true },
        },
        command: command.to_owned(),
        context,
        description: String::new(),
    }
}

fn kb_ctrl(ch: char, command: &str, context: KeyContext) -> (r: KeyBinding)
    ensures
        r@ == ctrl_binding(ch, command@, context),
{
    KeyBinding {
        key: KeyCombo {
            code: SerializableKeyCode::Char(ch),
            modifiers: Modifiers { ctrl: true, alt: false, shift: false },
        },
        command: command.to_owned(),
        context,
        description: String::new(),
    }
}

fn kb_code(code: SerializableKeyCode, command: &str, context: KeyContext) -> (r: KeyBinding)
    ensures
        r@ == code_binding(code, command@, context),
{
    KeyBinding {
        key: KeyCombo { code, modifiers: Modifiers { ctrl: false, alt: false, shift: false } },
        command: command.to_owned(),
        context,
        description: String::new(),
    }
}

/// The built-in keymap: the default bindings and the sequence `gg` for
/// `cursor_top`.
#[verifier::rlimit(50)]
pub fn default_keymap() -> (r: Keymap)
    ensures
        r.wf(),
        r@.bindings == default_bindings(),
        r@.sequences == Map::<Seq<KeyCombo>, Seq<char>>::empty().insert(
            seq![key_g(), key_g()],
            "cursor_top"@,
        ),
        r@.buffer == Seq::<KeyCombo>::empty(),
        r@.last_key_time is None,
        r@.timeout == 500_000_000,
{
    let mut bindings: Vec<KeyBinding> = Vec::new();
    bindings.push(kb('j', "cursor_down", KeyContext::Normal));
    bindings.push(kb('k', "cursor_up", KeyContext::Normal));
    bindings.push(kb('h', "parent_directory", KeyContext::Normal));
    bindings.push(kb('l', "enter_directory", KeyContext::Normal));
    bindings.push(kb_code(SerializableKeyCode::Up, "cursor_up", KeyContext::Normal));
    bindings.push(kb_code(SerializableKeyCode::Down, "cursor_down", KeyContext::Normal));
    bindings.push(kb_code(SerializableKeyCode::Left, "parent_directory", KeyContext::Normal));
    bindings.push(kb_code(SerializableKeyCode::Right, "enter_directory", KeyContext::Normal));
    bindings.push(kb_code(SerializableKeyCode::Enter, "enter_directory", KeyContext::Normal));
    bindings.push(kb_code(SerializableKeyCode::PageUp, "page_up", KeyContext::Normal));
    bindings.push(kb_code(SerializableKeyCode::PageDown, "page_down", KeyContext::Normal));
    bindings.push(kb_ctrl('d', "page_down", KeyContext::Normal));
    bindings.push(kb_ctrl('u', "page_up", KeyContext::Normal));
    bindings.push(kb_code(SerializableKeyCode::Home, "cursor_top", KeyContext::Normal));
    bindings.push(kb_code(SerializableKeyCode::End, "cursor_bottom", KeyContext::Normal));
    bindings.push(kb_shift('G', "cursor_bottom", KeyContext::Normal));
    bindings.push(kb_code(SerializableKeyCode::Space, "toggle_select", KeyContext::Normal));
    bindings.push(kb('v', "visual_mode", KeyContext::Normal));
    bindings.push(kb('p', "paste", KeyContext::Normal));
    bindings.push(kb('r', "rename", KeyContext::Normal));
    bindings.push(kb('a', "create_file", KeyContext::Normal));
    bindings.push(kb_shift('A', "create_dir", KeyContext::Normal));
    bindings.push(kb('d', "delete", KeyContext::Normal));
    bindings.push(kb('y', "copy", KeyContext::Normal));
    bindings.push(kb('x', "cut", KeyContext::Normal));
    bindings.push(kb('.', "toggle_hidden", KeyContext::Normal));
    bindings.push(kb('s', "sort_next", KeyContext::Normal));
    bindings.push(kb_shift('S', "toggle_sort_order", KeyContext::Normal));
    bindings.push(kb_ctrl('r', "refresh", KeyContext::Normal));
    bindings.push(kb_ctrl('p', "toggle_preview", KeyContext::Normal));
    bindings.push(kb('/', "search", KeyContext::Normal));
    bindings.push(kb('f', "filter", KeyContext::Normal));
    bindings.push(kb(':', "command_mode", KeyContext::Normal));
    bindings.push(kb('q', "quit", KeyContext::Normal));
    bindings.push(kb_ctrl('c', "force_quit", KeyContext::Global));
    bindings.push(kb('j', "cursor_down", KeyContext::Visual));
    bindings.push(kb('k', "cursor_up", KeyContext::Visual));
    bindings.push(kb_code(SerializableKeyCode::Esc, "normal_mode", KeyContext::Visual));
    bindings.push(kb('y', "copy", KeyContext::Visual));
    bindings.push(kb('d', "delete", KeyContext::Visual));
    bindings.push(kb('x', "cut", KeyContext::Visual));
    bindings.push(kb_code(SerializableKeyCode::Enter, "confirm", KeyContext::Search));
    bindings.push(kb_code(SerializableKeyCode::Esc, "cancel", KeyContext::Search));
    bindings.push(kb_ctrl('n', "search_next", KeyContext::Search));
    bindings.push(kb_ctrl('p', "search_prev", KeyContext::Search));
    assert(bindings_view(bindings@) =~= default_bindings());
    let mut keymap = Keymap::new(bindings);
    let g = KeyCombo {
        code: SerializableKeyCode::Char('g'),
        modifiers: Modifiers { ctrl: false, alt: false, shift: false },
    };
    let keys = vec![g, g];
    assert(keys@ == seq![key_g(), key_g()]);
    keymap.register_sequence(keys, "cursor_top".to_owned());
    keymap
}


/// A two-key sequence is completed when its keys come one after the other
/// within the timeout: the first key waits (the sequence is pending), the
/// second yields the sequence's command and empties the buffer.
pub proof fn law_sequence_completes(
    v: KeymapView,
    k1: KeyCombo,
    k2: KeyCombo,
    ctx: KeyContext,
    t1: u64,
    t2: u64,
)
    requires
        v.buffer.len() == 0,
        v.sequences.contains_key(seq![k1, k2]),
        !v.sequences.contains_key(seq![k1]),
        t1 <= t2,
        t2 - t1 <= v.timeout,
    ensures
        spec_feed(v, k1, ctx, t1).1 == KeymapResultView::Pending,
        spec_feed(v, k1, ctx, t1).0.buffer == seq![k1],
        spec_feed(spec_feed(v, k1, ctx, t1).0, k2, ctx, t2).1 == KeymapResultView::Command(
            v.sequences[seq![k1, k2]],
        ),
        spec_feed(spec_feed(v, k1, ctx, t1).0, k2, ctx, t2).0.buffer.len() == 0,
{
    let first = Seq::<KeyCombo>::empty().push(k1);
    assert(first =~= seq![k1]);
    let both = seq![k1, k2];
    assert(both.take(1) =~= first);
    assert(is_proper_prefix_of_some(v.sequences, first));
    assert(buffer_before(v, t1) == v.buffer);
    assert(buffer_before(v, t1).push(k1) =~= first);
    let v1 = spec_feed(v, k1, ctx, t1).0;
    assert(v1 == with_buffer(v, first, Some(t1)));
    assert(spec_duration_since(t2, t1) == t2 - t1);
    assert(buffer_before(v1, t2) == first);
    assert(first.push(k2) =~= both);
}

/// A key that comes after more than the timeout starts afresh: the keys
/// pending before it are dropped.
pub proof fn law_sequence_times_out(v: KeymapView, key: KeyCombo, ctx: KeyContext, now: u64)
    requires
        v.buffer.len() > 0,
        v.last_key_time is Some,
        now >= v.last_key_time->0,
        now - v.last_key_time->0 > v.timeout,
    ensures
        spec_feed(v, key, ctx, now) == spec_feed(with_buffer(v, Seq::empty(), v.last_key_time), key, ctx, now),
{
    assert(buffer_before(v, now) =~= Seq::<KeyCombo>::empty());
}

/// A key that arrives more than the timeout after the pending keys of a
/// sequence, and starts no registered sequence itself, is resolved on its own:
/// the command bound to it, or unhandled, and nothing stays pending.
pub proof fn law_timed_out_key_resolves_alone(v: KeymapView, key: KeyCombo, ctx: KeyContext, now: u64)
    requires
        v.buffer.len() > 0,
        v.last_key_time is Some,
        now >= v.last_key_time->0,
        now - v.last_key_time->0 > v.timeout,
        !v.sequences.contains_key(seq![key]),
        !is_proper_prefix_of_some(v.sequences, seq![key]),
    ensures
        spec_feed(v, key, ctx, now).1 == match spec_resolve(v.bindings, key, ctx) {
            Some(c) => KeymapResultView::Command(c),
            None => KeymapResultView::Unhandled,
        },
        spec_feed(v, key, ctx, now).0.buffer.len() == 0,
{
    assert(buffer_before(v, now) =~= Seq::<KeyCombo>::empty());
    assert(buffer_before(v, now).push(key) =~= seq![key]);
}

/// On a keymap, a key that arrives more than 500 ms after the pending keys of
/// a sequence, and starts no registered sequence itself, is resolved on its
/// own: the command bound to it, or unhandled; the sequence's command is not
/// produced and nothing stays pending.
pub proof fn law_keymap_sequence_times_out(km: &Keymap, key: KeyCombo, ctx: KeyContext, now: u64)
    requires
        km.wf(),
        km@.buffer.len() > 0,
        km@.last_key_time is Some,
        now >= km@.last_key_time->0,
        now - km@.last_key_time->0 > 500_000_000,
        !km@.sequences.contains_key(seq![key]),
        !is_proper_prefix_of_some(km@.sequences, seq![key]),
    ensures
        spec_feed(km@, key, ctx, now).1 == match spec_resolve(km@.bindings, key, ctx) {
            Some(c) => KeymapResultView::Command(c),
            None => KeymapResultView::Unhandled,
        },
        spec_feed(km@, key, ctx, now).0.buffer.len() == 0,
{
    km.lemma_wf_timeout();
    law_timed_out_key_resolves_alone(km@, key, ctx, now);
}

proof fn lemma_remove_slot_members(bs: Seq<BindingView>, u: BindingView)
    ensures
        forall|i: int|
            0 <= i < remove_slot(bs, u).len() ==> bs.contains(#[trigger] remove_slot(bs, u)[i])
                && !same_slot(remove_slot(bs, u)[i], u),
    decreases bs.len(),
{
    if bs.len() > 0 {
        lemma_remove_slot_members(bs.drop_last(), u);
        let r = remove_slot(bs.drop_last(), u);
        assert forall|i: int| 0 <= i < remove_slot(bs, u).len() implies bs.contains(
            #[trigger] remove_slot(bs, u)[i],
        ) && !same_slot(remove_slot(bs, u)[i], u) by {
            if i < r.len() {
                let x = r[i];
                let j = choose|j: int| 0 <= j < bs.drop_last().len() && bs.drop_last()[j] == x;
                assert(bs[j] == x);
            } else {
                assert(bs[bs.len() - 1] == bs.last());
            }
        }
    }
}

proof fn lemma_resolve_after(s: Seq<BindingView>, x: BindingView, key: KeyCombo, ctx: KeyContext)
    requires
        forall|i: int| 0 <= i < s.len() ==> !binding_applies(#[trigger] s[i], key, ctx),
        binding_applies(x, key, ctx),
    ensures
        spec_resolve(s.push(x), key, ctx) == Some(x.command),
    decreases s.len(),
{
    if s.len() > 0 {
        assert(s.push(x)[0] == s[0]);
        assert(s.push(x).drop_first() =~= s.drop_first().push(x));
        assert forall|i: int| 0 <= i < s.drop_first().len() implies !binding_applies(
            #[trigger] s.drop_first()[i],
            key,
            ctx,
        ) by {
            assert(s.drop_first()[i] == s[i + 1]);
        }
        lemma_resolve_after(s.drop_first(), x, key, ctx);
    } else {
        assert(s.push(x)[0] == x);
    }
}

/// A user binding merged after others wins in its own key and context: looking
/// its key up in its context gives its command, unless a global binding of the
/// same key is already there (global bindings apply in every context and come
/// first).
pub proof fn law_user_binding_wins(bs: Seq<BindingView>, us: Seq<BindingView>, u: BindingView)
    requires
        forall|i: int|
            0 <= i < spec_merge(bs, us).len() ==> (#[trigger] spec_merge(bs, us)[i]).key == u.key
                && spec_merge(bs, us)[i].context == KeyContext::Global ==> u.context
                == KeyContext::Global,
    ensures
        spec_resolve(spec_merge(bs, us.push(u)), u.key, u.context) == Some(u.command),
{
    let m = spec_merge(bs, us);
    assert(us.push(u).drop_last() =~= us);
    let r = remove_slot(m, u);
    lemma_remove_slot_members(m, u);
    assert forall|i: int| 0 <= i < r.len() implies !binding_applies(#[trigger] r[i], u.key, u.context) by {
        let x = r[i];
        let j = choose|j: int| 0 <= j < m.len() && m[j] == x;
        assert(m[j] == x);
    }
    lemma_resolve_after(r, u, u.key, u.context);
}

/// `bs` without the bindings in the slot of any of `us`, order kept.
pub open spec fn remove_slots(bs: Seq<BindingView>, us: Seq<BindingView>) -> Seq<BindingView>
    decreases us.len(),
{
    if us.len() == 0 {
        bs
    } else {
        remove_slot(remove_slots(bs, us.drop_last()), us.last())
    }
}

proof fn lemma_remove_slot_concat(a: Seq<BindingView>, b: Seq<BindingView>, u: BindingView)
    ensures
        remove_slot(a + b, u) == remove_slot(a, u) + remove_slot(b, u),
    decreases b.len(),
{
    if b.len() == 0 {
        assert(a + b =~= a);
        assert(remove_slot(a, u) + remove_slot(b, u) =~= remove_slot(a, u));
    } else {
        assert((a + b).drop_last() =~= a + b.drop_last());
        assert((a + b).last() == b.last());
        lemma_remove_slot_concat(a, b.drop_last(), u);
        if !same_slot(b.last(), u) {
            assert((remove_slot(a, u) + remove_slot(b.drop_last(), u)).push(b.last()) =~= remove_slot(
                a,
                u,
            ) + remove_slot(b.drop_last(), u).push(b.last()));
        }
    }
}

proof fn lemma_remove_slots_concat(a: Seq<BindingView>, b: Seq<BindingView>, us: Seq<BindingView>)
    ensures
        remove_slots(a + b, us) == remove_slots(a, us) + remove_slots(b, us),
    decreases us.len(),
{
    if us.len() > 0 {
        lemma_remove_slots_concat(a, b, us.drop_last());
        lemma_remove_slot_concat(
            remove_slots(a, us.drop_last()),
            remove_slots(b, us.drop_last()),
            us.last(),
        );
    }
}

/// Merging is dropping the slots of the user bindings from the old bindings
/// and appending what merging them into nothing gives.
proof fn lemma_merge_split(bs: Seq<BindingView>, us: Seq<BindingView>)
    ensures
        spec_merge(bs, us) == remove_slots(bs, us) + spec_merge(Seq::empty(), us),
    decreases us.len(),
{
    if us.len() == 0 {
        assert(bs + Seq::<BindingView>::empty() =~= bs);
    } else {
        let p = us.drop_last();
        let u = us.last();
        lemma_merge_split(bs, p);
        lemma_remove_slot_concat(remove_slots(bs, p), spec_merge(Seq::empty(), p), u);
        assert((remove_slot(remove_slots(bs, p), u) + remove_slot(spec_merge(Seq::empty(), p), u)).push(
            u,
        ) =~= remove_slot(remove_slots(bs, p), u) + remove_slot(spec_merge(Seq::empty(), p), u).push(
            u,
        ));
    }
}

proof fn lemma_remove_slot_none(bs: Seq<BindingView>, u: BindingView)
    requires
        forall|i: int| 0 <= i < bs.len() ==> !same_slot(#[trigger] bs[i], u),
    ensures
        remove_slot(bs, u) == bs,
    decreases bs.len(),
{
    if bs.len() > 0 {
        assert forall|i: int| 0 <= i < bs.drop_last().len() implies !same_slot(
            #[trigger] bs.drop_last()[i],
            u,
        ) by {
            assert(bs.drop_last()[i] == bs[i]);
        }
        lemma_remove_slot_none(bs.drop_last(), u);
        assert(bs.drop_last().push(bs.last()) =~= bs);
        assert(!same_slot(bs[bs.len() - 1], u));
    }
}

proof fn lemma_remove_slots_none(bs: Seq<BindingView>, us: Seq<BindingView>)
    requires
        forall|i: int, j: int|
            #![trigger bs[i], us[j]]
            0 <= i < bs.len() && 0 <= j < us.len() ==> !same_slot(bs[i], us[j]),
    ensures
        remove_slots(bs, us) == bs,
    decreases us.len(),
{
    if us.len() > 0 {
        let p = us.drop_last();
        assert forall|i: int, j: int|
            #![trigger bs[i], p[j]]
            0 <= i < bs.len() && 0 <= j < p.len() implies !same_slot(bs[i], p[j]) by {
            assert(p[j] == us[j]);
        }
        lemma_remove_slots_none(bs, p);
        assert forall|i: int| 0 <= i < bs.len() implies !same_slot(#[trigger] bs[i], us.last()) by {
            assert(us.last() == us[us.len() - 1]);
        }
        lemma_remove_slot_none(bs, us.last());
    }
}

proof fn lemma_remove_slots_members(bs: Seq<BindingView>, us: Seq<BindingView>)
    ensures
        forall|i: int| 0 <= i < remove_slots(bs, us).len() ==> bs.contains(#[trigger] remove_slots(bs, us)[i]),
        forall|i: int, j: int|
            #![trigger remove_slots(bs, us)[i], us[j]]
            0 <= i < remove_slots(bs, us).len() && 0 <= j < us.len() ==> !same_slot(
                remove_slots(bs, us)[i],
                us[j],
            ),
    decreases us.len(),
{
    if us.len() > 0 {
        let p = us.drop_last();
        let u = us.last();
        let prev = remove_slots(bs, p);
        let r = remove_slots(bs, us);
        lemma_remove_slots_members(bs, p);
        lemma_remove_slot_members(prev, u);
        assert forall|i: int| 0 <= i < r.len() implies bs.contains(#[trigger] r[i]) by {
            assert(prev.contains(r[i]));
            let k = choose|k: int| 0 <= k < prev.len() && prev[k] == r[i];
            assert(bs.contains(prev[k]));
        }
        assert forall|i: int, j: int|
            #![trigger r[i], us[j]]
            0 <= i < r.len() && 0 <= j < us.len() implies !same_slot(r[i], us[j]) by {
            if j < us.len() - 1 {
                assert(prev.contains(r[i]));
                let k = choose|k: int| 0 <= k < prev.len() && prev[k] == r[i];
                assert(us[j] == p[j]);
                assert(!same_slot(prev[k], p[j]));
            } else {
                assert(us[j] == u);
            }
        }
    }
}

proof fn lemma_merge_members(us: Seq<BindingView>)
    ensures
        forall|i: int|
            0 <= i < spec_merge(Seq::empty(), us).len() ==> us.contains(
                #[trigger] spec_merge(Seq::empty(), us)[i],
            ),
    decreases us.len(),
{
    if us.len() > 0 {
        let p = us.drop_last();
        let u = us.last();
        let w = spec_merge(Seq::empty(), p);
        let r = remove_slot(w, u);
        lemma_merge_members(p);
        lemma_remove_slot_members(w, u);
        let m = spec_merge(Seq::empty(), us);
        assert forall|i: int| 0 <= i < m.len() implies us.contains(#[trigger] m[i]) by {
            if i < r.len() {
                assert(m[i] == r[i]);
                assert(w.contains(r[i]));
                let k = choose|k: int| 0 <= k < w.len() && w[k] == r[i];
                assert(p.contains(w[k]));
                let j = choose|j: int| 0 <= j < p.len() && p[j] == w[k];
                assert(us[j] == p[j]);
            } else {
                assert(m[i] == u);
                assert(us[us.len() - 1] == u);
            }
        }
    }
}

/// Merging the same user bindings a second time changes nothing: the bindings
/// are those of merging them once, in the same order.
pub proof fn law_merge_idempotent(bs: Seq<BindingView>, us: Seq<BindingView>)
    ensures
        spec_merge(spec_merge(bs, us), us) == spec_merge(bs, us),
{
    let f = remove_slots(bs, us);
    let w = spec_merge(Seq::empty(), us);
    lemma_merge_split(bs, us);
    lemma_merge_split(f + w, us);
    lemma_remove_slots_concat(f, w, us);
    lemma_remove_slots_members(bs, us);
    lemma_remove_slots_none(f, us);
    lemma_merge_members(us);
    lemma_remove_slots_members(w, us);
    let rw = remove_slots(w, us);
    if rw.len() > 0 {
        let x = rw[0];
        assert(w.contains(x));
        let k = choose|k: int| 0 <= k < w.len() && w[k] == x;
        assert(us.contains(w[k]));
        let j = choose|j: int| 0 <= j < us.len() && us[j] == w[k];
        assert(!same_slot(rw[0], us[j]));
    }
    assert(rw =~= Seq::<BindingView>::empty());
    assert(f + rw + w =~= f + w);
}

/// A terminal key code, as the terminal reports it.
#[derive(Clone, Copy, Debug, PartialEq, Eq, Structural)]
pub enum RawKeyCode {
    Char(char),
    F(u8),
    Enter,
    Esc,
    Tab,
    Backspace,
    Delete,
    Up,
    Down,
    Left,
    Right,
    Home,
    End,
    PageUp,
    PageDown,
    /// Any key the keymap does not bind.
    Other,
}

/// A key press as the terminal reports it: the code and the modifier flags.
#[derive(Clone, Copy, Debug, PartialEq, Eq, Structural)]
pub struct KeyInput {
    pub code: RawKeyCode,
    pub ctrl: bool,
    pub alt: bool,
    pub shift: bool,
}

pub open spec fn spec_serializable_code(code: RawKeyCode) -> Option<SerializableKeyCode> {
    match code {
        RawKeyCode::Char(c) => if c == ' ' {
            Some(SerializableKeyCode::Space)
        } else {
            Some(SerializableKeyCode::Char(c))
        },
        RawKeyCode::F(n) => Some(SerializableKeyCode::F(n)),
        RawKeyCode::Enter => Some(SerializableKeyCode::Enter),
        RawKeyCode::Esc => Some(SerializableKeyCode::Esc),
        RawKeyCode::Tab => Some(SerializableKeyCode::Tab),
        RawKeyCode::Backspace => Some(SerializableKeyCode::Backspace),
        RawKeyCode::Delete => Some(SerializableKeyCode::Delete),
        RawKeyCode::Up => Some(SerializableKeyCode::Up),
        RawKeyCode::Down => Some(SerializableKeyCode::Down),
        RawKeyCode::Left => Some(SerializableKeyCode::Left),
        RawKeyCode::Right => Some(SerializableKeyCode::Right),
        RawKeyCode::Home => Some(SerializableKeyCode::Home),
        RawKeyCode::End => Some(SerializableKeyCode::End),
        RawKeyCode::PageUp => Some(SerializableKeyCode::PageUp),
        RawKeyCode::PageDown => Some(SerializableKeyCode::PageDown),
        RawKeyCode::Other => None,
    }
}

/// The key combination of a key press. A character key carries shift exactly
/// when it is an ASCII uppercase letter (the character already reflects shift);
/// other keys keep the reported shift flag.
pub open spec fn spec_from_key_input(input: KeyInput) -> Option<KeyCombo> {
    match spec_serializable_code(input.code) {
        Some(code) => Some(
            KeyCombo {
                code,
                modifiers: Modifiers {
                    ctrl: input.ctrl,
                    alt: input.alt,
                    shift: match code {
                        SerializableKeyCode::Char(c) => 'A' <= c && c <= 'Z',
                        _ => input.shift,
                    },
                },
            },
        ),
        None => None,
    }
}

impl KeyCombo {
    /// The key combination a key press stands for, if the keymap can bind it.
    pub fn from_key_input(input: &KeyInput) -> (r: Option<KeyCombo>)
        ensures
            r == spec_from_key_input(*input),
    {
        let code = match input.code {
            RawKeyCode::Char(c) => if c == ' ' {
                SerializableKeyCode::Space
            } else {
                SerializableKeyCode::Char(c)
            },
            RawKeyCode::F(n) => SerializableKeyCode::F(n),
            RawKeyCode::Enter => SerializableKeyCode::Enter,
            RawKeyCode::Esc => SerializableKeyCode::Esc,
            RawKeyCode::Tab => SerializableKeyCode::Tab,
            RawKeyCode::Backspace => SerializableKeyCode::Backspace,
            RawKeyCode::Delete => SerializableKeyCode::Delete,
            RawKeyCode::Up => SerializableKeyCode::Up,
            RawKeyCode::Down => SerializableKeyCode::Down,
            RawKeyCode::Left => SerializableKeyCode::Left,
            RawKeyCode::Right => SerializableKeyCode::Right,
            RawKeyCode::Home => SerializableKeyCode::Home,
            RawKeyCode::End => SerializableKeyCode::End,
            RawKeyCode::PageUp => SerializableKeyCode::PageUp,
            RawKeyCode::PageDown => SerializableKeyCode::PageDown,
            RawKeyCode::Other => {
                return None;
            },
        };
        let effective_shift = match code {
            SerializableKeyCode::Char(c) => 'A' <= c && c <= 'Z',
            _ => input.shift,
        };
        Some(
            KeyCombo {
                code,
                modifiers: Modifiers { ctrl: input.ctrl, alt: input.alt, shift: effective_shift },
            },
        )
    }
}

} // verus!
