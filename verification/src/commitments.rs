//! Commitments over a dealt deck: the salted hand hashes, the draw-pile
//! hash and the per-card merkle root that the proof program publishes, and
//! the hex form the artifacts are reported in.

use vstd::prelude::*;
use crate::rules::{
    DECK_SIZE, ValidationError, base_deck, params_valid, perform_shuffle, shuffled_of,
    spec_validate,
};

verus! {

/// What the digest returns for a message.  The digest depends on the message
/// bytes alone.
pub uninterp spec fn sha256_of(data: Seq<u8>) -> Seq<u8>;

/// Relies on `sha2::Sha256` through `Digest::digest`: the digest is 32 bytes
/// and a function of the input bytes alone.
#[verifier::external_body]
fn sha256(data: &[u8]) -> (r: [u8; 32])
    ensures
        r@ == sha256_of(data@),
{
    let digest = <sha2::Sha256 as sha2::Digest>::digest(data);
    digest.into()
}

/// Relies on `String::push`: it appends the given character to the string.
#[verifier::external_body]
fn push_char(s: &mut String, c: char)
    ensures
        final(s)@ == old(s)@.push(c),
{
    s.push(c);
}

/// The lower-case hex digit of a nibble.
pub open spec fn hex_digit(n: u8) -> char {
    if n == 0 {
        '0'
    } else if n == 1 {
        '1'
    } else if n == 2 {
        '2'
    } else if n == 3 {
        '3'
    } else if n == 4 {
        '4'
    } else if n == 5 {
        '5'
    } else if n == 6 {
        '6'
    } else if n == 7 {
        '7'
    } else if n == 8 {
        '8'
    } else if n == 9 {
        '9'
    } else if n == 10 {
        'a'
    } else if n == 11 {
        'b'
    } else if n == 12 {
        'c'
    } else if n == 13 {
        'd'
    } else if n == 14 {
        'e'
    } else if n == 15 {
        'f'
    } else {
        'f'
    }
}

fn hex_digit_char(n: u8) -> (r: char)
    requires
        n < 16,
    ensures
        r == hex_digit(n),
{
    match n {
        0 => '0',
        1 => '1',
        2 => '2',
        3 => '3',
        4 => '4',
        5 => '5',
        6 => '6',
        7 => '7',
        8 => '8',
        9 => '9',
        10 => 'a',
        11 => 'b',
        12 => 'c',
        13 => 'd',
        14 => 'e',
        15 => 'f',
        _ => 'f',
    }
}

/// The hex digits of a byte run, two per byte, high nibble first.
pub open spec fn hex_chars_of(s: Seq<u8>) -> Seq<char> {
    Seq::new(
        2 * s.len(),
        |i: int|
            if i % 2 == 0 {
                hex_digit((s[i / 2] >> 4u8) & 15u8)
            } else {
                hex_digit(s[i / 2] & 15u8)
            },
    )
}

/// The `0x`-prefixed lower-case hex form of a byte run.
pub fn to_hex_with_prefix(bytes: &[u8]) -> (r: String)
    ensures
        r@ == seq!['0', 'x'] + hex_chars_of(bytes@),
{
    let mut s = String::new();
    push_char(&mut s, '0');
    push_char(&mut s, 'x');
    let n = bytes.len();
    let mut i: usize = 0;
    proof {
        assert(s@ =~= seq!['0', 'x'] + hex_chars_of(bytes@.subrange(0, 0)));
    }
    while i < n
        invariant
            i <= n,
            n == bytes@.len(),
            s@ == seq!['0', 'x'] + hex_chars_of(bytes@.subrange(0, i as int)),
        decreases n - i,
    {
        let b = bytes[i];
        proof {
            assert((b >> 4u8) & 15u8 < 16 && b & 15u8 < 16) by (bit_vector);
        }
        push_char(&mut s, hex_digit_char((b >> 4u8) & 15u8));
        push_char(&mut s, hex_digit_char(b & 15u8));
        proof {
            assert(s@ =~= seq!['0', 'x'] + hex_chars_of(bytes@.subrange(0, i as int + 1)));
        }
        i += 1;
    }
    proof {
        assert(bytes@.subrange(0, n as int) =~= bytes@);
    }
    s
}

/// What the proof program is given.
#[derive(Debug, Clone, Copy, PartialEq, Eq)]
pub struct ProofInput {
    pub num_players: u8,
    pub cards_per_player: u8,
    pub seed: [u8; 32],
}

/// The artifact a finished proof is reported as: hex-encoded proof data,
/// verification key hash, and public inputs.
#[derive(Debug, Clone, PartialEq)]
pub struct ProofOutput {
    pub proof: String,
    pub image_id: String,
    pub pub_inputs: String,
}

/// The domain tag `ZUNNO_CARD_LEAF_V1`, as bytes.
pub open spec fn card_leaf_tag() -> Seq<u8> {
    seq![90u8, 85u8, 78u8, 78u8, 79u8, 95u8, 67u8, 65u8, 82u8, 68u8, 95u8, 76u8, 69u8, 65u8, 70u8, 95u8, 86u8, 49u8]
}

fn tag_card_leaf() -> (v: Vec<u8>)
    ensures
        v@ == card_leaf_tag(),
{
    let mut v: Vec<u8> = Vec::new();
    v.push(90);
    v.push(85);
    v.push(78);
    v.push(78);
    v.push(79);
    v.push(95);
    v.push(67);
    v.push(65);
    v.push(82);
    v.push(68);
    v.push(95);
    v.push(76);
    v.push(69);
    v.push(65);
    v.push(70);
    v.push(95);
    v.push(86);
    v.push(49);
    proof {
        assert(v@ =~= card_leaf_tag());
    }
    v
}

/// The domain tag `ZUNNO_DRAW_PILE_V1`, as bytes.
pub open spec fn draw_pile_tag() -> Seq<u8> {
    seq![90u8, 85u8, 78u8, 78u8, 79u8, 95u8, 68u8, 82u8, 65u8, 87u8, 95u8, 80u8, 73u8, 76u8, 69u8, 95u8, 86u8, 49u8]
}

fn tag_draw_pile() -> (v: Vec<u8>)
    ensures
        v@ == draw_pile_tag(),
{
    let mut v: Vec<u8> = Vec::new();
    v.push(90);
    v.push(85);
    v.push(78);
    v.push(78);
    v.push(79);
    v.push(95);
    v.push(68);
    v.push(82);
    v.push(65);
    v.push(87);
    v.push(95);
    v.push(80);
    v.push(73);
    v.push(76);
    v.push(69);
    v.push(95);
    v.push(86);
    v.push(49);
    proof {
        assert(v@ =~= draw_pile_tag());
    }
    v
}

/// The domain tag `ZUNNO_PLAYER_SALT_V1`, as bytes.
pub open spec fn player_salt_tag() -> Seq<u8> {
    seq![90u8, 85u8, 78u8, 78u8, 79u8, 95u8, 80u8, 76u8, 65u8, 89u8, 69u8, 82u8, 95u8, 83u8, 65u8, 76u8, 84u8, 95u8, 86u8, 49u8]
}

fn tag_player_salt() -> (v: Vec<u8>)
    ensures
        v@ == player_salt_tag(),
{
    let mut v: Vec<u8> = Vec::new();
    v.push(90);
    v.push(85);
    v.push(78);
    v.push(78);
    v.push(79);
    v.push(95);
    v.push(80);
    v.push(76);
    v.push(65);
    v.push(89);
    v.push(69);
    v.push(82);
    v.push(95);
    v.push(83);
    v.push(65);
    v.push(76);
    v.push(84);
    v.push(95);
    v.push(86);
    v.push(49);
    proof {
        assert(v@ =~= player_salt_tag());
    }
    v
}

/// The domain tag `ZUNNO_MERKLE_NODE_V1`, as bytes.
pub open spec fn merkle_node_tag() -> Seq<u8> {
    seq![90u8, 85u8, 78u8, 78u8, 79u8, 95u8, 77u8, 69u8, 82u8, 75u8, 76u8, 69u8, 95u8, 78u8, 79u8, 68u8, 69u8, 95u8, 86u8, 49u8]
}

fn tag_merkle_node() -> (v: Vec<u8>)
    ensures
        v@ == merkle_node_tag(),
{
    let mut v: Vec<u8> = Vec::new();
    v.push(90);
    v.push(85);
    v.push(78);
    v.push(78);
    v.push(79);
    v.push(95);
    v.push(77);
    v.push(69);
    v.push(82);
    v.push(75);
    v.push(76);
    v.push(69);
    v.push(95);
    v.push(78);
    v.push(79);
    v.push(68);
    v.push(69);
    v.push(95);
    v.push(86);
    v.push(49);
    proof {
        assert(v@ =~= merkle_node_tag());
    }
    v
}


/// Byte runs in lexicographic order, as the node ordering compares them.
pub open spec fn lex_le(a: Seq<u8>, b: Seq<u8>) -> bool
    decreases a.len(),
{
    if a.len() == 0 {
        true
    } else if b.len() == 0 {
        false
    } else if a[0] < b[0] {
        true
    } else if a[0] > b[0] {
        false
    } else {
        lex_le(a.drop_first(), b.drop_first())
    }
}

proof fn lemma_lex_le_step(a: Seq<u8>, b: Seq<u8>, i: int)
    requires
        a.len() == b.len(),
        0 <= i < a.len(),
        a[i] == b[i],
    ensures
        lex_le(a.skip(i), b.skip(i)) == lex_le(a.skip(i + 1), b.skip(i + 1)),
{
    assert(a.skip(i).drop_first() =~= a.skip(i + 1));
    assert(b.skip(i).drop_first() =~= b.skip(i + 1));
    assert(a.skip(i)[0] == a[i]);
    assert(b.skip(i)[0] == b[i]);
}

/// Compare two words in lexicographic order.
fn bytes32_le(a: &[u8; 32], b: &[u8; 32]) -> (r: bool)
    ensures
        r == lex_le(a@, b@),
{
    proof {
        assert(a@.skip(0) =~= a@);
        assert(b@.skip(0) =~= b@);
    }
    let mut i: usize = 0;
    while i < 32
        invariant
            i <= 32,
            lex_le(a@, b@) == lex_le(a@.skip(i as int), b@.skip(i as int)),
        decreases 32 - i,
    {
        if a[i] < b[i] {
            proof {
                assert(a@.skip(i as int)[0] == a@[i as int]);
                assert(b@.skip(i as int)[0] == b@[i as int]);
            }
            return true;
        }
        if a[i] > b[i] {
            proof {
                assert(a@.skip(i as int)[0] == a@[i as int]);
                assert(b@.skip(i as int)[0] == b@[i as int]);
            }
            return false;
        }
        proof {
            lemma_lex_le_step(a@, b@, i as int);
        }
        i += 1;
    }
    proof {
        assert(a@.skip(32) =~= Seq::<u8>::empty());
    }
    true
}

/// The hash of a merkle node over its two children, smaller child first.
pub open spec fn merkle_parent(l: Seq<u8>, r: Seq<u8>) -> Seq<u8> {
    if lex_le(l, r) {
        sha256_of(merkle_node_tag() + l + r)
    } else {
        sha256_of(merkle_node_tag() + r + l)
    }
}

/// One reduction of a merkle layer: nodes pairwise, an odd last node paired
/// with itself.
pub open spec fn merkle_level(level: Seq<Seq<u8>>) -> Seq<Seq<u8>> {
    Seq::new(
        (level.len() + 1) / 2,
        |i: int|
            if 2 * i + 1 < level.len() {
                merkle_parent(level[2 * i], level[2 * i + 1])
            } else {
                merkle_parent(level[2 * i], level[2 * i])
            },
    )
}

/// The root of the merkle tree over the leaves: a single leaf is its own
/// root, and each layer is reduced pairwise.
pub open spec fn merkle_root_of(level: Seq<Seq<u8>>) -> Seq<u8>
    decreases level.len(),
{
    if level.len() <= 1 {
        level[0]
    } else {
        merkle_root_of(merkle_level(level))
    }
}

/// Append a word to a byte run.
fn push_word(v: &mut Vec<u8>, w: &[u8; 32])
    ensures
        final(v)@ == old(v)@ + w@,
{
    let mut i: usize = 0;
    while i < 32
        invariant
            i <= 32,
            v@ == old(v)@ + w@.subrange(0, i as int),
        decreases 32 - i,
    {
        v.push(w[i]);
        proof {
            assert(old(v)@ + w@.subrange(0, i as int + 1) =~= (old(v)@ + w@.subrange(
                0,
                i as int,
            )).push(w@[i as int]));
        }
        i += 1;
    }
    proof {
        assert(w@.subrange(0, 32) =~= w@);
    }
}

/// A word as an owned byte run.
fn word_to_vec(w: &[u8; 32]) -> (r: Vec<u8>)
    ensures
        r@ == w@,
{
    let mut v: Vec<u8> = Vec::new();
    proof {
        assert(v@ + w@.subrange(0, 0) =~= v@);
    }
    push_word(&mut v, w);
    proof {
        assert(v@ =~= w@);
    }
    v
}

fn merkle_node(left: &[u8; 32], right: &[u8; 32]) -> (r: [u8; 32])
    ensures
        r@ == merkle_parent(left@, right@),
{
    let mut msg = tag_merkle_node();
    if bytes32_le(left, right) {
        push_word(&mut msg, left);
        push_word(&mut msg, right);
    } else {
        push_word(&mut msg, right);
        push_word(&mut msg, left);
    }
    sha256(msg.as_slice())
}

/// The merkle root over a layer of leaves, reduced pairwise, an odd last
/// node paired with itself.
pub fn build_merkle_root(leaves: &Vec<[u8; 32]>) -> (r: [u8; 32])
    requires
        leaves@.len() >= 1,
    ensures
        r@ == merkle_root_of(leaves.deep_view()),
{
    let mut current: Vec<[u8; 32]> = Vec::new();
    let n = leaves.len();
    let mut i: usize = 0;
    while i < n
        invariant
            i <= n,
            n == leaves@.len(),
            current@.len() == i as int,
            forall|k: int| 0 <= k < i as int ==> current@[k] == leaves@[k],
        decreases n - i,
    {
        current.push(leaves[i]);
        i += 1;
    }
    proof {
        assert(current.deep_view() =~= leaves.deep_view());
    }
    while current.len() > 1
        invariant
            current@.len() >= 1,
            merkle_root_of(current.deep_view()) == merkle_root_of(leaves.deep_view()),
        decreases current@.len(),
    {
        let m = current.len();
        let mut next: Vec<[u8; 32]> = Vec::new();
        let mut j: usize = 0;
        while j + 1 < m
            invariant
                m == current@.len(),
                m >= 2,
                j % 2 == 0,
                j <= m,
                next@.len() == j as int / 2,
                forall|k: int|
                    0 <= k < next@.len() ==> (#[trigger] next@[k])@ == merkle_level(
                        current.deep_view(),
                    )[k],
            decreases m - j,
        {
            let left = current[j];
            let right = current[j + 1];
            let node = merkle_node(&left, &right);
            next.push(node);
            proof {
                let dv = current.deep_view();
                let k0 = j as int / 2;
                assert(dv[j as int] == current@[j as int]@);
                assert(dv[j as int + 1] == current@[j as int + 1]@);
                assert(2 * k0 == j as int);
                assert(next@[k0]@ == merkle_level(dv)[k0]);
            }
            j += 2;
        }
        if j < m {
            let left = current[j];
            let node = merkle_node(&left, &left);
            next.push(node);
            proof {
                let dv = current.deep_view();
                let k0 = j as int / 2;
                assert(dv[j as int] == current@[j as int]@);
                assert(2 * k0 == j as int);
                assert(2 * k0 + 1 >= m);
                assert(next@[k0]@ == merkle_level(dv)[k0]);
            }
        }
        proof {
            let dv = current.deep_view();
            assert(next@.len() == (m as int + 1) / 2);
            assert forall|k: int| 0 <= k < next@.len() implies next.deep_view()[k] == merkle_level(
                dv,
            )[k] by {
                assert(next.deep_view()[k] == next@[k]@);
            }
            assert(next.deep_view() =~= merkle_level(dv));
            assert(dv.len() >= 2);
        }
        current = next;
    }
    proof {
        assert(current.deep_view().len() == 1);
    }
    current[0]
}

/// The little-endian bytes of a position counter.
pub open spec fn le8(n: u64) -> Seq<u8> {
    seq![
        (n & 255) as u8,
        ((n >> 8) & 255) as u8,
        ((n >> 16) & 255) as u8,
        ((n >> 24) & 255) as u8,
        ((n >> 32) & 255) as u8,
        ((n >> 40) & 255) as u8,
        ((n >> 48) & 255) as u8,
        ((n >> 56) & 255) as u8,
    ]
}

fn push_le8(v: &mut Vec<u8>, n: u64)
    ensures
        final(v)@ == old(v)@ + le8(n),
{
    v.push((n & 255) as u8);
    v.push(((n >> 8) & 255) as u8);
    v.push(((n >> 16) & 255) as u8);
    v.push(((n >> 24) & 255) as u8);
    v.push(((n >> 32) & 255) as u8);
    v.push(((n >> 40) & 255) as u8);
    v.push(((n >> 48) & 255) as u8);
    v.push(((n >> 56) & 255) as u8);
    proof {
        assert(v@ =~= old(v)@ + le8(n));
    }
}

/// The dealt deck laid out for commitment: the hands in player order, card
/// by card, then the draw pile.
pub open spec fn spec_dealt_deck(shuffled: Seq<u8>, p: int, c: int) -> Seq<u8> {
    Seq::new(
        shuffled.len(),
        |pos: int|
            if pos < p * c {
                shuffled[(pos % c) * p + pos / c]
            } else {
                shuffled[pos]
            },
    )
}

/// The leaf committed for the card at a position of the dealt deck.
pub open spec fn spec_leaf_hash(seed: Seq<u8>, pos: u64, card: u8) -> Seq<u8> {
    sha256_of(card_leaf_tag() + seed + le8(pos) + seq![card])
}

/// The leaves of the card merkle tree, one per position of the dealt deck.
pub open spec fn spec_leaf_seq(dealt: Seq<u8>, seed: Seq<u8>) -> Seq<Seq<u8>> {
    Seq::new(dealt.len(), |pos: int| spec_leaf_hash(seed, pos as u64, dealt[pos]))
}

/// The salt a player's hand is hashed with.
pub open spec fn spec_player_salt(seed: Seq<u8>, k: u8) -> Seq<u8> {
    sha256_of(player_salt_tag() + seed + seq![k])
}

/// A player's salted hand hash.
pub open spec fn spec_hand_hash(seed: Seq<u8>, k: u8, hand: Seq<u8>) -> Seq<u8> {
    sha256_of(spec_player_salt(seed, k) + hand)
}

/// What the proof program publishes for a game: the parameters, the salted
/// hand hashes, the seed-bound draw-pile hash, the card merkle root, and the
/// seed.
#[derive(Debug, Clone)]
pub struct PublicValues {
    pub no_of_players: u8,
    pub cards_per_player: u8,
    pub initial_hands_hash: Vec<Vec<u8>>,
    pub draw_pile_hash: [u8; 32],
    pub merkle_root: [u8; 32],
    pub seed: [u8; 32],
}

/// Deal the deck from the seed and commit to it: each card bound to its
/// position and the seed in a merkle leaf, the draw pile and each hand
/// hashed under the seed.
pub fn compute_game_commitments(num_players: u8, cards_per_player: u8, seed: &[u8; 32]) -> (r:
    Result<PublicValues, ValidationError>)
    ensures
        r is Ok <==> params_valid(num_players, cards_per_player),
        r is Err ==> Err::<(), ValidationError>(r->Err_0) == spec_validate(
            num_players,
            cards_per_player,
        ),
        r matches Ok(v) ==> ({
            let shuffled = shuffled_of(base_deck(), seed@);
            let p = num_players as int;
            let c = cards_per_player as int;
            let dealt = spec_dealt_deck(shuffled, p, c);
            &&& v.no_of_players == num_players
            &&& v.cards_per_player == cards_per_player
            &&& v.seed == *seed
            &&& v.merkle_root@ == merkle_root_of(spec_leaf_seq(dealt, seed@))
            &&& v.draw_pile_hash@ == sha256_of(
                draw_pile_tag() + seed@ + shuffled.subrange(p * c, DECK_SIZE as int),
            )
            &&& v.initial_hands_hash@.len() == p
            &&& forall|k: int|
                0 <= k < p ==> (#[trigger] v.initial_hands_hash@[k])@ == spec_hand_hash(
                    seed@,
                    k as u8,
                    Seq::new(c as nat, |j: int| shuffled[j * p + k]),
                )
        }),
{
    broadcast use vstd::arithmetic::div_mod::group_div_basics;

    let outcome = match perform_shuffle(num_players, cards_per_player, seed) {
        Ok(o) => o,
        Err(e) => {
            return Err(e);
        },
    };
    let ghost shuffled = shuffled_of(base_deck(), seed@);
    let ghost p_g = num_players as int;
    let ghost c_g = cards_per_player as int;
    let p = num_players as usize;
    let c = cards_per_player as usize;

    // Lay the dealt deck out: the hands in player order, then the draw pile.
    let mut dealt: Vec<u8> = Vec::new();
    let mut k: usize = 0;
    while k < p
        invariant
            k <= p,
            p == p_g,
            c == c_g,
            p_g <= 255,
            c_g <= 255,
            params_valid(num_players, cards_per_player),
            shuffled.len() == DECK_SIZE as int,
            outcome.player_hands@.len() == p_g,
            forall|kk: int| 0 <= kk < p_g ==> (#[trigger] outcome.player_hands@[kk])@.len() == c_g,
            forall|kk: int, j: int|
                0 <= kk < p_g && 0 <= j < c_g ==> (#[trigger] outcome.player_hands@[kk]@[j])
                    == shuffled[j * p_g + kk],
            dealt@.len() == k as int * c_g,
            forall|pos: int|
                0 <= pos < dealt@.len() ==> #[trigger] dealt@[pos] == shuffled[(pos % c_g) * p_g
                    + pos / c_g],
        decreases p - k,
    {
        let mut j: usize = 0;
        while j < c
            invariant
                j <= c,
                k < p,
                p == p_g,
                c == c_g,
                p_g <= 255,
                c_g <= 255,
                params_valid(num_players, cards_per_player),
                shuffled.len() == DECK_SIZE as int,
                outcome.player_hands@.len() == p_g,
                forall|kk: int|
                    0 <= kk < p_g ==> (#[trigger] outcome.player_hands@[kk])@.len() == c_g,
                forall|kk: int, j2: int|
                    0 <= kk < p_g && 0 <= j2 < c_g ==> (#[trigger] outcome.player_hands@[kk]@[j2])
                        == shuffled[j2 * p_g + kk],
                dealt@.len() == k as int * c_g + j as int,
                forall|pos: int|
                    0 <= pos < dealt@.len() ==> #[trigger] dealt@[pos] == shuffled[(pos % c_g)
                        * p_g + pos / c_g],
            decreases c - j,
        {
            proof {
                assert(k as int * c_g + j < p_g * c_g && k as int * c_g + j < 256 * 256) by (nonlinear_arith)
                    requires
                        0 <= k < p_g,
                        0 <= j < c_g,
                        p_g <= 255,
                        c_g <= 255,
                ;
            }
            let card = outcome.player_hands[k][j];
            dealt.push(card);
            proof {
                let pos = k as int * c_g + j as int;
                vstd::arithmetic::div_mod::lemma_fundamental_div_mod_converse(
                    pos,
                    c_g,
                    k as int,
                    j as int,
                );
                assert(pos % c_g == j as int && pos / c_g == k as int);
                assert(dealt@[pos] == shuffled[(pos % c_g) * p_g + pos / c_g]);
            }
            j += 1;
        }
        proof {
            assert(k as int * c_g + c_g == (k as int + 1) * c_g) by (nonlinear_arith);
        }
        k += 1;
    }
    let dealt_hands = dealt.len();
    proof {
        assert(dealt@.len() == p_g * c_g) by (nonlinear_arith)
            requires
                dealt@.len() == p_g * c_g,
        ;
    }
    let mut d: usize = 0;
    let draw_len = outcome.draw_pile.len();
    while d < draw_len
        invariant
            d <= draw_len,
            p == p_g,
            c == c_g,
            shuffled.len() == DECK_SIZE as int,
            draw_len == outcome.draw_pile@.len(),
            0 <= p_g * c_g <= DECK_SIZE as int,
            outcome.draw_pile@ == shuffled.subrange(p_g * c_g, DECK_SIZE as int),
            dealt_hands == p_g * c_g,
            dealt@.len() == dealt_hands + d as int,
            forall|pos: int|
                0 <= pos < dealt_hands ==> #[trigger] dealt@[pos] == shuffled[(pos % c_g) * p_g
                    + pos / c_g],
            forall|pos: int|
                dealt_hands <= pos < dealt@.len() ==> #[trigger] dealt@[pos] == shuffled[pos],
        decreases draw_len - d,
    {
        let card = outcome.draw_pile[d];
        dealt.push(card);
        proof {
            let pos0 = dealt_hands as int + d as int;
            assert(dealt@.len() == pos0 + 1);
            assert(dealt@[pos0] == outcome.draw_pile@[d as int]);
            assert(outcome.draw_pile@[d as int] == shuffled.subrange(
                p_g * c_g,
                DECK_SIZE as int,
            )[d as int]);
            assert(shuffled.subrange(p_g * c_g, DECK_SIZE as int)[d as int] == shuffled[p_g * c_g
                + d as int]);
        }
        d += 1;
    }
    proof {
        assert(dealt@ =~= spec_dealt_deck(shuffled, p_g, c_g));
    }

    // The per-card merkle leaves.
    let total = dealt.len();
    let mut leaves: Vec<[u8; 32]> = Vec::new();
    let mut pos: usize = 0;
    while pos < total
        invariant
            pos <= total,
            total == dealt@.len(),
            total <= DECK_SIZE,
            leaves@.len() == pos as int,
            forall|q: int|
                0 <= q < pos as int ==> (#[trigger] leaves@[q])@ == spec_leaf_hash(
                    seed@,
                    q as u64,
                    dealt@[q],
                ),
        decreases total - pos,
    {
        let mut msg = tag_card_leaf();
        push_word(&mut msg, seed);
        push_le8(&mut msg, pos as u64);
        let card = dealt[pos];
        msg.push(card);
        proof {
            assert(msg@ =~= card_leaf_tag() + seed@ + le8(pos as u64) + seq![card]);
        }
        let leaf = sha256(msg.as_slice());
        leaves.push(leaf);
        pos += 1;
    }
    proof {
        assert forall|q: int| 0 <= q < leaves@.len() implies leaves.deep_view()[q] == spec_leaf_seq(
            dealt@,
            seed@,
        )[q] by {
            assert(leaves.deep_view()[q] == leaves@[q]@);
        }
        assert(leaves.deep_view() =~= spec_leaf_seq(dealt@, seed@));
    }
    let merkle_root = build_merkle_root(&leaves);

    // The seed-bound draw-pile hash.
    let mut draw_msg = tag_draw_pile();
    push_word(&mut draw_msg, seed);
    let mut d2: usize = 0;
    while d2 < draw_len
        invariant
            d2 <= draw_len,
            draw_len == outcome.draw_pile@.len(),
            draw_msg@ == draw_pile_tag() + seed@ + outcome.draw_pile@.subrange(0, d2 as int),
        decreases draw_len - d2,
    {
        draw_msg.push(outcome.draw_pile[d2]);
        proof {
            assert(draw_pile_tag() + seed@ + outcome.draw_pile@.subrange(0, d2 as int + 1) =~= (
            draw_pile_tag() + seed@ + outcome.draw_pile@.subrange(0, d2 as int)).push(
                outcome.draw_pile@[d2 as int],
            ));
        }
        d2 += 1;
    }
    proof {
        assert(outcome.draw_pile@.subrange(0, draw_len as int) =~= outcome.draw_pile@);
    }
    let draw_pile_hash = sha256(draw_msg.as_slice());

    // The salted hand hashes.
    let mut initial_hands_hash: Vec<Vec<u8>> = Vec::new();
    let mut hk: usize = 0;
    while hk < p
        invariant
            hk <= p,
            p == p_g,
            c == c_g,
            shuffled.len() == DECK_SIZE as int,
            outcome.player_hands@.len() == p_g,
            forall|kk: int| 0 <= kk < p_g ==> (#[trigger] outcome.player_hands@[kk])@.len() == c_g,
            forall|kk: int, j2: int|
                0 <= kk < p_g && 0 <= j2 < c_g ==> (#[trigger] outcome.player_hands@[kk]@[j2])
                    == shuffled[j2 * p_g + kk],
            initial_hands_hash@.len() == hk as int,
            forall|kk: int|
                0 <= kk < hk as int ==> (#[trigger] initial_hands_hash@[kk])@ == spec_hand_hash(
                    seed@,
                    kk as u8,
                    Seq::new(c_g as nat, |j: int| shuffled[j * p_g + kk]),
                ),
        decreases p - hk,
    {
        let mut salt_msg = tag_player_salt();
        push_word(&mut salt_msg, seed);
        salt_msg.push(hk as u8);
        proof {
            assert(salt_msg@ =~= player_salt_tag() + seed@ + seq![hk as u8]);
        }
        let salt = sha256(salt_msg.as_slice());
        let mut hand_msg = word_to_vec(&salt);
        let hand = &outcome.player_hands[hk];
        let hand_len = hand.len();
        let mut j: usize = 0;
        while j < hand_len
            invariant
                j <= hand_len,
                hk < p,
                p == p_g,
                c == c_g,
                outcome.player_hands@.len() == p_g,
                hand == &outcome.player_hands[hk as int],
                hand_len == hand@.len(),
                salt@ == spec_player_salt(seed@, hk as u8),
                hand_msg@ == salt@ + hand@.subrange(0, j as int),
            decreases hand_len - j,
        {
            hand_msg.push(hand[j]);
            proof {
                assert(salt@ + hand@.subrange(0, j as int + 1) =~= (salt@ + hand@.subrange(
                    0,
                    j as int,
                )).push(hand@[j as int]));
            }
            j += 1;
        }
        proof {
            assert(hand@.subrange(0, hand_len as int) =~= hand@);
        }
        let hand_hash = sha256(hand_msg.as_slice());
        initial_hands_hash.push(word_to_vec(&hand_hash));
        proof {
            assert(hand@ =~= Seq::new(c_g as nat, |j: int| shuffled[j * p_g + hk as int]));
        }
        hk += 1;
    }

    Ok(
        PublicValues {
            no_of_players: num_players,
            cards_per_player: cards_per_player,
            initial_hands_hash,
            draw_pile_hash,
            merkle_root,
            seed: *seed,
        },
    )
}

} // verus!
