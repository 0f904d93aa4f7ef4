use vstd::prelude::*;
use crate::screen::ScreenState;
use crate::entropy::{thread_rng, random_index};

verus! {

/// What the server knows of one connected client.
pub struct ConnectionInfo {
    /// The client's address, as text.
    pub client_addr: String,
    /// The token handed to the client, or `-1` before the handshake.
    pub token: String,
    /// The screen the client must be on.
    pub screen: ScreenState,
}

impl ConnectionInfo {
    /// A new connection, on the token handshake screen.
    pub fn new(addr: String, token: String) -> (c: ConnectionInfo)
        ensures
            c.client_addr@ == addr@,
            c.token@ == token@,
            c.screen == ScreenState::TokenHandshake,
    {
        ConnectionInfo { client_addr: addr, token, screen: ScreenState::TokenHandshake }
    }

    /// A copy of this record.
    pub fn duplicate(&self) -> (c: ConnectionInfo)
        ensures
            c == *self,
    {
        ConnectionInfo {
            client_addr: self.client_addr.clone(),
            token: self.token.clone(),
            screen: self.screen,
        }
    }
}

/// Number of characters of a client token.
pub const TOKEN_LENGTH: usize = 10;

/// Number of distinct tokens: 62 to the power `TOKEN_LENGTH`.
pub const TOKEN_SPACE: u64 = 839299365868340224;

/// The character for digit `d` (below 62) of a token read in base 62: `A` to `Z`, then
/// `a` to `z`, then `0` to `9`.
pub open spec fn token_digit(d: int) -> char {
    if d < 26 {
        (65 + d) as char
    } else if d < 52 {
        (71 + d) as char
    } else {
        (d - 4) as char
    }
}

/// The characters a client token is drawn from, in the order above.
pub open spec fn token_alphabet() -> Seq<char> {
    Seq::new(62, |d: int| token_digit(d))
}

/// `t` could be drawn as a token: ten characters of `token_alphabet()`.
pub open spec fn is_token_shaped(t: Seq<char>) -> bool {
    t.len() == TOKEN_LENGTH && forall|i: int| 0 <= i < t.len() ==> token_alphabet().contains(#[trigger] t[i])
}

/// 62 to the power `n`.
pub open spec fn pow62(n: nat) -> nat
    decreases n,
{
    if n == 0 {
        1
    } else {
        62 * pow62((n - 1) as nat)
    }
}

/// The token numbered `k`: the `len` lowest digits of `k` in base 62, lowest digit first.
pub open spec fn token_of_index(k: nat, len: nat) -> Seq<char>
    decreases len,
{
    if len == 0 {
        Seq::empty()
    } else {
        seq![token_digit((k % 62) as int)] + token_of_index(k / 62, (len - 1) as nat)
    }
}

/// How many random tokens `ConnectionTable::fresh_token` draws before it takes the
/// first free numbered token instead.
pub const TOKEN_ATTEMPTS: u32 = 1000;

/// Distinct digits have distinct characters.
proof fn lemma_token_digit_injective(a: int, b: int)
    requires
        0 <= a < 62,
        0 <= b < 62,
        token_digit(a) == token_digit(b),
    ensures
        a == b,
{
    assert(token_digit(a) as u32 == if a < 26 { 65 + a } else if a < 52 { 71 + a } else { a - 4 });
    assert(token_digit(b) as u32 == if b < 26 { 65 + b } else if b < 52 { 71 + b } else { b - 4 });
}

/// The token numbered `k` has `len` characters, each of `token_alphabet()`.
proof fn lemma_token_of_index_shape(k: nat, len: nat)
    ensures
        token_of_index(k, len).len() == len,
        forall|i: int| 0 <= i < len ==> token_alphabet().contains(#[trigger] token_of_index(k, len)[i]),
    decreases len,
{
    if len > 0 {
        lemma_token_of_index_shape(k / 62, (len - 1) as nat);
        let d = (k % 62) as int;
        assert(token_alphabet()[d] == token_digit(d));
        assert forall|i: int| 0 <= i < len implies token_alphabet().contains(#[trigger] token_of_index(k, len)[i]) by {
            if i > 0 {
                assert(token_of_index(k, len)[i] == token_of_index(k / 62, (len - 1) as nat)[i - 1]);
            }
        }
    }
}

/// Below `pow62(len)`, distinct numbers have distinct tokens.
proof fn lemma_token_of_index_injective(a: nat, b: nat, len: nat)
    requires
        a < pow62(len),
        b < pow62(len),
        token_of_index(a, len) == token_of_index(b, len),
    ensures
        a == b,
    decreases len,
{
    if len > 0 {
        let m = (len - 1) as nat;
        let ta = token_of_index(a, len);
        lemma_token_of_index_shape(a / 62, m);
        lemma_token_of_index_shape(b / 62, m);
        assert(ta[0] == token_digit((a % 62) as int));
        assert(ta[0] == token_digit((b % 62) as int));
        lemma_token_digit_injective((a % 62) as int, (b % 62) as int);
        assert(token_of_index(a / 62, m) =~= ta.subrange(1, ta.len() as int));
        assert(token_of_index(b / 62, m) =~= ta.subrange(1, ta.len() as int));
        let p = pow62(m);
        assert(a / 62 < p && b / 62 < p) by (nonlinear_arith)
            requires
                a < 62 * p,
                b < 62 * p,
        ;
        lemma_token_of_index_injective(a / 62, b / 62, m);
    }
}

/// When the tokens numbered `0` to `m - 1` (with `m` at most `TOKEN_SPACE`) are all
/// held, the table has at least `m` entries.
proof fn lemma_numbered_tokens_need_entries(table: &ConnectionTable, m: nat)
    requires
        m <= TOKEN_SPACE,
        forall|j: nat| j < m ==> table.has_token(#[trigger] token_of_index(j, TOKEN_LENGTH as nat)),
    ensures
        m <= table.entries@.len(),
{
    let n = table.entries@.len() as int;
    let f = |j: int| token_of_index(j as nat, TOKEN_LENGTH as nat);
    let g = |i: int| table.entries@[i].token@;
    let numbered = vstd::set_lib::set_int_range(0, m as int);
    let held = vstd::set_lib::set_int_range(0, n);
    vstd::set_lib::lemma_int_range(0, m as int);
    vstd::set_lib::lemma_int_range(0, n);
    lemma_token_space();
    assert(vstd::relations::injective_on(f, numbered)) by {
        assert forall|x: int, y: int| numbered.contains(x) && numbered.contains(y) && #[trigger] f(x) == #[trigger] f(y)
            implies x == y by {
            lemma_token_of_index_injective(x as nat, y as nat, TOKEN_LENGTH as nat);
        }
    }
    vstd::set_lib::lemma_map_size(numbered, numbered.map(f), f);
    vstd::set_lib::lemma_map_size_bound(held, held.map(g), g);
    assert(numbered.map(f).subset_of(held.map(g))) by {
        assert forall|t: Seq<char>| numbered.map(f).contains(t) implies held.map(g).contains(t) by {
            let j = choose|j: int| numbered.contains(j) && f(j) == t;
            assert(table.has_token(token_of_index(j as nat, TOKEN_LENGTH as nat)));
            let i = choose|i: int| 0 <= i < n && #[trigger] table.entries@[i].token@ == t;
            assert(held.contains(i) && g(i) == t);
        }
    }
    vstd::set_lib::lemma_len_subset(numbered.map(f), held.map(g));
}

/// `TOKEN_SPACE` is 62 to the power `TOKEN_LENGTH`.
proof fn lemma_token_space()
    ensures
        pow62(TOKEN_LENGTH as nat) == TOKEN_SPACE,
{
    reveal_with_fuel(pow62, 11);
}

/// The list of all open connections, at most one per client address.
pub struct ConnectionTable {
    pub entries: Vec<ConnectionInfo>,
}

impl ConnectionTable {
    /// No two entries share a client address.
    pub open spec fn wf(&self) -> bool {
        forall|i: int, j: int|
            0 <= i < self.entries@.len() && 0 <= j < self.entries@.len() && i != j
                ==> #[trigger] self.entries@[i].client_addr@ != #[trigger] self.entries@[j].client_addr@
    }

    /// Whether some entry has the address `addr`.
    pub open spec fn has_addr(&self, addr: Seq<char>) -> bool {
        exists|i: int| 0 <= i < self.entries@.len() && #[trigger] self.entries@[i].client_addr@ == addr
    }

    /// Whether some entry holds the token `token`.
    pub open spec fn has_token(&self, token: Seq<char>) -> bool {
        exists|i: int| 0 <= i < self.entries@.len() && #[trigger] self.entries@[i].token@ == token
    }

    /// `after` is `self` with the client at `addr` moved to `screen`.
    pub open spec fn moved(&self, after: &ConnectionTable, addr: Seq<char>, screen: ScreenState) -> bool {
        &&& after.entries@.len() == self.entries@.len()
        &&& forall|i: int| 0 <= i < self.entries@.len() ==> {
            let before = #[trigger] self.entries@[i];
            let now = after.entries@[i];
            &&& now.client_addr == before.client_addr
            &&& now.token == before.token
            &&& now.screen == (if before.client_addr@ == addr { screen } else { before.screen })
        }
    }

    /// An empty table.
    pub fn new() -> (t: ConnectionTable)
        ensures
            t.wf(),
            t.entries@.len() == 0,
    {
        ConnectionTable { entries: Vec::new() }
    }

    /// Whether a client with address `addr` is connected.
    pub fn contains_addr(&self, addr: &str) -> (r: bool)
        ensures
            r == self.has_addr(addr@),
    {
        let n = self.entries.len();
        let mut i: usize = 0;
        while i < n
            invariant
                n == self.entries@.len(),
                i <= n,
                forall|j: int| 0 <= j < i ==> self.entries@[j].client_addr@ != addr@,
            decreases n - i,
        {
            if crate::text::same_text(self.entries[i].client_addr.as_str(), addr) {
                return true;
            }
            i = i + 1;
        }
        false
    }

    /// Whether some connection holds `token`.
    pub fn token_in_use(&self, token: &str) -> (r: bool)
        ensures
            r == self.has_token(token@),
    {
        let n = self.entries.len();
        let mut i: usize = 0;
        while i < n
            invariant
                n == self.entries@.len(),
                i <= n,
                forall|j: int| 0 <= j < i ==> self.entries@[j].token@ != token@,
            decreases n - i,
        {
            if crate::text::same_text(self.entries[i].token.as_str(), token) {
                return true;
            }
            i = i + 1;
        }
        false
    }

    /// Registers a new client: refused (and nothing changes) when a client with the same
    /// address is already connected, otherwise a new entry with token `-1` is added.
    pub fn register(&mut self, addr: String) -> (accepted: bool)
        requires
            old(self).wf(),
        ensures
            final(self).wf(),
            accepted == !old(self).has_addr(addr@),
            !accepted ==> final(self).entries@ == old(self).entries@,
            accepted ==> final(self).entries@.len() == old(self).entries@.len() + 1
                && final(self).entries@.drop_last() == old(self).entries@
                && final(self).entries@.last().client_addr@ == addr@
                && final(self).entries@.last().token@ == "-1"@
                && final(self).entries@.last().screen == ScreenState::TokenHandshake,
    {
        if self.contains_addr(addr.as_str()) {
            return false;
        }
        let entry = ConnectionInfo::new(addr, String::from_str("-1"));
        self.entries.push(entry);
        assert(self.entries@.drop_last() =~= old(self).entries@);
        true
    }

    /// One random token: ten characters of `token_alphabet()`.
    pub fn token_candidate() -> (t: String)
        ensures
            t@.len() == TOKEN_LENGTH,
            forall|i: int| 0 <= i < t@.len() ==> token_alphabet().contains(#[trigger] t@[i]),
    {
        let alphabet = "ABCDEFGHIJKLMNOPQRSTUVWXYZabcdefghijklmnopqrstuvwxyz0123456789";
        proof {
            reveal_strlit("ABCDEFGHIJKLMNOPQRSTUVWXYZabcdefghijklmnopqrstuvwxyz0123456789");
        }
        let n = alphabet.unicode_len();
        let mut rng = thread_rng();
        let mut t = String::new();
        let mut k: usize = 0;
        while k < TOKEN_LENGTH
            invariant
                n == token_alphabet().len(),
                alphabet@ == token_alphabet(),
                n == 62,
                k <= TOKEN_LENGTH,
                t@.len() == k,
                forall|i: int| 0 <= i < t@.len() ==> token_alphabet().contains(#[trigger] t@[i]),
            decreases TOKEN_LENGTH - k,
        {
            let idx = random_index(&mut rng, n);
            let c = alphabet.get_char(idx);
            assert(token_alphabet()[idx as int] == c);
            t.push(c);
            k = k + 1;
        }
        t
    }

    /// The character of digit `d` of a token.
    fn digit_char(d: u64) -> (c: char)
        requires
            d < 62,
        ensures
            c == token_digit(d as int),
    {
        if d < 26 {
            ((65 + d) as u8) as char
        } else if d < 52 {
            ((71 + d) as u8) as char
        } else {
            ((d - 4) as u8) as char
        }
    }

    /// The token numbered `k` (see `token_of_index`).
    pub fn token_of_number(k: u64) -> (t: String)
        ensures
            t@ == token_of_index(k as nat, TOKEN_LENGTH as nat),
    {
        let mut t = String::new();
        let mut q: u64 = k;
        let mut i: usize = 0;
        while i < TOKEN_LENGTH
            invariant
                i <= TOKEN_LENGTH,
                t@ + token_of_index(q as nat, (TOKEN_LENGTH - i) as nat) == token_of_index(k as nat, TOKEN_LENGTH as nat),
            decreases TOKEN_LENGTH - i,
        {
            let c = ConnectionTable::digit_char(q % 62);
            let ghost rest = token_of_index((q / 62) as nat, (TOKEN_LENGTH - i - 1) as nat);
            assert(token_of_index(q as nat, (TOKEN_LENGTH - i) as nat) == seq![c] + rest);
            let ghost before = t@;
            t.push(c);
            assert(t@ + rest =~= before + (seq![c] + rest));
            q = q / 62;
            i = i + 1;
        }
        assert(t@ + token_of_index(q as nat, 0) =~= t@);
        t
    }

    /// The unused token with the smallest number (see `token_of_index`). One exists, as the
    /// table holds fewer entries than there are tokens.
    pub fn first_free_numbered_token(&self) -> (t: String)
        requires
            self.entries@.len() < TOKEN_SPACE,
        ensures
            !self.has_token(t@),
            is_token_shaped(t@),
            exists|k: nat| #![trigger token_of_index(k, TOKEN_LENGTH as nat)]
                t@ == token_of_index(k, TOKEN_LENGTH as nat)
                && forall|j: nat| j < k ==> self.has_token(#[trigger] token_of_index(j, TOKEN_LENGTH as nat)),
    {
        let n = self.entries.len() as u64;
        let mut k: u64 = 0;
        loop
            invariant
                k <= n,
                n == self.entries@.len(),
                n < TOKEN_SPACE,
                forall|j: nat| j < k ==> self.has_token(#[trigger] token_of_index(j, TOKEN_LENGTH as nat)),
            decreases n - k,
        {
            let t = ConnectionTable::token_of_number(k);
            if !self.token_in_use(t.as_str()) {
                proof {
                    lemma_token_of_index_shape(k as nat, TOKEN_LENGTH as nat);
                }
                return t;
            }
            proof {
                assert forall|j: nat| j < k + 1 implies self.has_token(#[trigger] token_of_index(j, TOKEN_LENGTH as nat)) by {
                    if j == k {
                        assert(self.has_token(t@));
                    }
                }
                if k == n {
                    lemma_numbered_tokens_need_entries(self, (k + 1) as nat);
                }
            }
            k = k + 1;
        }
    }

    /// A token that no connection holds yet. Tokens are drawn at random, as many as
    /// `TOKEN_ATTEMPTS` times; if every draw is in use, the first free numbered token is
    /// taken. The table holds fewer entries than there are tokens.
    pub fn fresh_token(&self) -> (t: String)
        requires
            self.entries@.len() < TOKEN_SPACE,
        ensures
            !self.has_token(t@),
            is_token_shaped(t@),
    {
        let mut attempts: u32 = 0;
        while attempts < TOKEN_ATTEMPTS
            decreases TOKEN_ATTEMPTS - attempts,
        {
            let t = ConnectionTable::token_candidate();
            if !self.token_in_use(t.as_str()) {
                return t;
            }
            attempts = attempts + 1;
        }
        self.first_free_numbered_token()
    }

    /// The screen of the client at `addr`, if it is connected.
    pub fn screen_of(&self, addr: &str) -> (r: Option<ScreenState>)
        requires
            self.wf(),
        ensures
            match r {
                Some(s) => exists|i: int|
                    0 <= i < self.entries@.len() && #[trigger] self.entries@[i].client_addr@ == addr@
                        && self.entries@[i].screen == s,
                None => !self.has_addr(addr@),
            },
    {
        let n = self.entries.len();
        let mut i: usize = 0;
        while i < n
            invariant
                n == self.entries@.len(),
                i <= n,
                forall|j: int| 0 <= j < i ==> self.entries@[j].client_addr@ != addr@,
            decreases n - i,
        {
            if crate::text::same_text(self.entries[i].client_addr.as_str(), addr) {
                return Some(self.entries[i].screen);
            }
            i = i + 1;
        }
        None
    }

    /// Moves the client at `addr` to `screen`; every other entry stays as it was.
    pub fn set_screen(&mut self, addr: &str, screen: ScreenState)
        requires
            old(self).wf(),
        ensures
            final(self).wf(),
            old(self).moved(final(self), addr@, screen),
    {
        let n = self.entries.len();
        let mut i: usize = 0;
        while i < n
            invariant
                n == self.entries@.len(),
                n == old(self).entries@.len(),
                i <= n,
                forall|j: int| 0 <= j < n ==> {
                    let before = #[trigger] old(self).entries@[j];
                    let after = self.entries@[j];
                    &&& after.client_addr == before.client_addr
                    &&& after.token == before.token
                    &&& after.screen == (if j < i && before.client_addr@ == addr@ { screen } else { before.screen })
                },
                old(self).wf(),
            decreases n - i,
        {
            if crate::text::same_text(self.entries[i].client_addr.as_str(), addr) {
                let mut e = self.entries[i].duplicate();
                e.screen = screen;
                self.entries.set(i, e);
            }
            i = i + 1;
        }
        assert forall|a: int, b: int|
            0 <= a < self.entries@.len() && 0 <= b < self.entries@.len() && a != b
            implies #[trigger] self.entries@[a].client_addr@ != #[trigger] self.entries@[b].client_addr@ by {
            assert(old(self).entries@[a].client_addr@ != old(self).entries@[b].client_addr@);
        }
    }

    /// Records `token` as the token of the client at `addr`; every other entry stays as
    /// it was.
    pub fn set_token(&mut self, addr: &str, token: &String)
        requires
            old(self).wf(),
        ensures
            final(self).wf(),
            final(self).entries@.len() == old(self).entries@.len(),
            forall|i: int| 0 <= i < old(self).entries@.len() ==> {
                let before = #[trigger] old(self).entries@[i];
                let after = final(self).entries@[i];
                &&& after.client_addr == before.client_addr
                &&& after.screen == before.screen
                &&& after.token@ == (if before.client_addr@ == addr@ { token@ } else { before.token@ })
            },
    {
        let n = self.entries.len();
        let mut i: usize = 0;
        while i < n
            invariant
                n == self.entries@.len(),
                n == old(self).entries@.len(),
                i <= n,
                forall|j: int| 0 <= j < n ==> {
                    let before = #[trigger] old(self).entries@[j];
                    let after = self.entries@[j];
                    &&& after.client_addr == before.client_addr
                    &&& after.screen == before.screen
                    &&& after.token@ == (if j < i && before.client_addr@ == addr@ { token@ } else { before.token@ })
                },
                old(self).wf(),
            decreases n - i,
        {
            if crate::text::same_text(self.entries[i].client_addr.as_str(), addr) {
                let mut e = self.entries[i].duplicate();
                e.token = token.clone();
                self.entries.set(i, e);
            }
            i = i + 1;
        }
        assert forall|a: int, b: int|
            0 <= a < self.entries@.len() && 0 <= b < self.entries@.len() && a != b
            implies #[trigger] self.entries@[a].client_addr@ != #[trigger] self.entries@[b].client_addr@ by {
            assert(old(self).entries@[a].client_addr@ != old(self).entries@[b].client_addr@);
        }
    }

    /// Drops the entry of a client that closed its connection, wherever it stands; the
    /// other entries keep their order. Nothing changes when the client has no entry.
    pub fn remove_closed(&mut self, addr: &str)
        requires
            old(self).wf(),
        ensures
            final(self).wf(),
            !final(self).has_addr(addr@),
            old(self).has_addr(addr@) ==> exists|i: int| 0 <= i < old(self).entries@.len()
                && #[trigger] old(self).entries@[i].client_addr@ == addr@
                && final(self).entries@ == old(self).entries@.remove(i),
            !old(self).has_addr(addr@) ==> final(self).entries@ == old(self).entries@,
    {
        let n = self.entries.len();
        let mut i: usize = 0;
        while i < n
            invariant
                n == old(self).entries@.len(),
                self.entries@ == old(self).entries@,
                i <= n,
                forall|j: int| 0 <= j < i ==> old(self).entries@[j].client_addr@ != addr@,
                old(self).wf(),
            decreases n - i,
        {
            if crate::text::same_text(self.entries[i].client_addr.as_str(), addr) {
                self.entries.remove(i);
                assert(old(self).entries@[i as int].client_addr@ == addr@);
                assert forall|a: int, b: int|
                    0 <= a < self.entries@.len() && 0 <= b < self.entries@.len() && a != b
                    implies #[trigger] self.entries@[a].client_addr@ != #[trigger] self.entries@[b].client_addr@ by {
                    let a0 = if a < i { a } else { a + 1 };
                    let b0 = if b < i { b } else { b + 1 };
                    assert(old(self).entries@[a0].client_addr@ != old(self).entries@[b0].client_addr@);
                }
                assert forall|j: int| 0 <= j < self.entries@.len() implies #[trigger] self.entries@[j].client_addr@ != addr@ by {
                    let j0 = if j < i { j } else { j + 1 };
                    assert(old(self).entries@[j0].client_addr@ != old(self).entries@[i as int].client_addr@);
                }
                return;
            }
            i = i + 1;
        }
    }
}

} // verus!
