//! A finished game's state and the card operations on it.

use vstd::prelude::*;
use crate::rules::{DECK_SIZE, shuffle_deck, shuffled_of};
use crate::vrf::{BlockchainSeed, inc_word_spec, increment_word, is_unfulfilled_word};

verus! {

/// A player's index into the hands.
pub type PlayerId = u8;

/// Why a card operation was refused.
#[derive(Debug, Clone, Copy, PartialEq, Eq, Structural)]
pub enum GameError {
    /// The game has not been dealt yet.
    NotInitialized,
    /// No such player.
    InvalidPlayer,
    /// Neither the draw pile nor the discard pile can supply a card.
    NoCardsAvailable,
    /// The card index exceeds the player's hand.
    CardIndexOutOfBounds,
}

/// A dealt game: the hands, the piles, and the seed it was dealt from.
#[derive(Debug, Clone)]
pub struct GameState {
    pub player_hands: Vec<Vec<u8>>,
    pub draw_pile: Vec<u8>,
    pub discard_pile: Vec<u8>,
    pub is_shuffled: bool,
    pub seed_metadata: BlockchainSeed,
    pub proof_cid: Option<String>,
}

/// Sum of the lengths of the first `k` hands.
pub open spec fn sum_hand_lens(hands: Seq<Vec<u8>>, k: int) -> int
    decreases k,
{
    if k <= 0 {
        0
    } else {
        sum_hand_lens(hands, k - 1) + hands[k - 1]@.len()
    }
}

/// Changing one hand changes the sum by the difference of that hand.
proof fn lemma_sum_update(hands: Seq<Vec<u8>>, k: int, h: Vec<u8>, i: int)
    requires
        0 <= i < hands.len(),
        0 <= k <= hands.len(),
    ensures
        sum_hand_lens(hands.update(i, h), k) == if i < k {
            sum_hand_lens(hands, k) - hands[i]@.len() + h@.len()
        } else {
            sum_hand_lens(hands, k)
        },
    decreases k,
{
    if k > 0 {
        lemma_sum_update(hands, k - 1, h, i);
    }
}

/// Hands of one uniform length sum to their count times that length.
pub proof fn lemma_sum_uniform(hands: Seq<Vec<u8>>, k: int, c: int)
    requires
        0 <= k <= hands.len(),
        forall|i: int| 0 <= i < hands.len() ==> (#[trigger] hands[i])@.len() == c,
    ensures
        sum_hand_lens(hands, k) == k * c,
    decreases k,
{
    if k > 0 {
        lemma_sum_uniform(hands, k - 1, c);
        assert(k * c == (k - 1) * c + c) by (nonlinear_arith);
    } else {
        assert(k * c == 0) by (nonlinear_arith)
            requires
                k == 0,
        ;
    }
}

/// All cards of a sequence are deck cards.
pub open spec fn cards_in_range(s: Seq<u8>) -> bool {
    forall|i: int| 0 <= i < s.len() ==> (#[trigger] s[i]) < DECK_SIZE as u8
}

/// Two sequences with equal multisets hold the same values, so a bound on
/// one bounds the other.
pub proof fn lemma_multiset_equal_in_range(s: Seq<u8>, t: Seq<u8>)
    requires
        s.to_multiset() == t.to_multiset(),
        cards_in_range(t),
    ensures
        cards_in_range(s),
{
    broadcast use vstd::seq_lib::group_to_multiset_ensures;

    assert forall|i: int| 0 <= i < s.len() implies (#[trigger] s[i]) < DECK_SIZE as u8 by {
        assert(s.contains(s[i]));
        assert(s.to_multiset().count(s[i]) > 0);
        assert(t.contains(s[i]));
        let w = choose|w: int| 0 <= w < t.len() && t[w] == s[i];
    }
}

impl GameState {
    /// Total cards in circulation.
    pub open spec fn spec_total(&self) -> int {
        sum_hand_lens(self.player_hands@, self.player_hands@.len() as int)
            + self.draw_pile@.len() + self.discard_pile@.len()
    }

    /// Every card is a deck card and no card exists twice: the circulation
    /// never exceeds one deck.
    pub open spec fn wf(&self) -> bool {
        &&& forall|k: int|
            0 <= k < self.player_hands@.len() ==> cards_in_range(
                (#[trigger] self.player_hands@[k])@,
            )
        &&& cards_in_range(self.draw_pile@)
        &&& cards_in_range(self.discard_pile@)
        &&& self.spec_total() <= DECK_SIZE as int
    }

    /// An empty, undealt game.
    pub fn new() -> (r: GameState)
        ensures
            r.wf(),
            r.player_hands@.len() == 0,
            r.draw_pile@.len() == 0,
            r.discard_pile@.len() == 0,
            !r.is_shuffled,
            is_unfulfilled_word(r.seed_metadata.value@),
            r.seed_metadata.request_id == 0,
            r.proof_cid is None,
    {
        GameState {
            player_hands: Vec::new(),
            draw_pile: Vec::new(),
            discard_pile: Vec::new(),
            is_shuffled: false,
            seed_metadata: Default::default(),
            proof_cid: None,
        }
    }

    /// Number of players dealt in.
    pub fn player_count(&self) -> (r: usize)
        ensures
            r == self.player_hands@.len(),
    {
        self.player_hands.len()
    }

    /// Whether the id names a dealt-in player.
    pub fn is_valid_player(&self, player_id: PlayerId) -> (r: bool)
        ensures
            r == ((player_id as int) < self.player_hands@.len()),
    {
        (player_id as usize) < self.player_hands.len()
    }

    /// Whether the game has been dealt.
    pub fn is_initialized(&self) -> (r: bool)
        ensures
            r == (self.is_shuffled && self.player_hands@.len() > 0),
    {
        self.is_shuffled && !self.player_hands.is_empty()
    }

    /// Total cards in circulation across hands and piles.
    pub fn total_cards(&self) -> (r: usize)
        requires
            self.wf(),
        ensures
            r == self.spec_total(),
    {
        let n = self.player_hands.len();
        let mut hands_total: usize = 0;
        let mut k: usize = 0;
        while k < n
            invariant
                k <= n,
                n == self.player_hands@.len(),
                hands_total == sum_hand_lens(self.player_hands@, k as int),
                self.wf(),
            decreases n - k,
        {
            proof {
                lemma_sum_nonneg(self.player_hands@, k as int);
                lemma_sum_prefix_bound(self.player_hands@, k as int + 1, n as int);
            }
            hands_total = hands_total + self.player_hands[k].len();
            k += 1;
        }
        proof {
            lemma_sum_nonneg(self.player_hands@, n as int);
        }
        hands_total + self.draw_pile.len() + self.discard_pile.len()
    }
}

/// Partial sums of hand lengths never decrease as more hands are counted.
proof fn lemma_sum_prefix_bound(hands: Seq<Vec<u8>>, k: int, n: int)
    requires
        0 <= k <= n <= hands.len(),
    ensures
        sum_hand_lens(hands, k) <= sum_hand_lens(hands, n),
    decreases n,
{
    if k < n {
        lemma_sum_prefix_bound(hands, k, n - 1);
    }
}

proof fn lemma_sum_nonneg(hands: Seq<Vec<u8>>, k: int)
    requires
        k <= hands.len(),
    ensures
        sum_hand_lens(hands, k) >= 0,
    decreases k,
{
    if k > 0 {
        lemma_sum_nonneg(hands, k - 1);
    }
}

/// Draw one card for a player.  The card comes off the top (the end) of the
/// draw pile.  An empty draw pile is first replenished from the discard pile:
/// its top card stays, the rest become the new draw pile, reshuffled with the
/// big-endian successor of the game's seed.
pub fn draw_card(game_state: &mut GameState, player_id: PlayerId) -> (r: Result<u8, GameError>)
    requires
        old(game_state).wf(),
    ensures
        final(game_state).wf(),
        final(game_state).is_shuffled == old(game_state).is_shuffled,
        final(game_state).seed_metadata == old(game_state).seed_metadata,
        final(game_state).proof_cid == old(game_state).proof_cid,
        r is Err ==> *final(game_state) == *old(game_state),
        r is Ok <==> (old(game_state).is_shuffled && old(game_state).player_hands@.len() > 0 && (
        player_id as int) < old(game_state).player_hands@.len() && (old(
            game_state,
        ).draw_pile@.len() > 0 || old(game_state).discard_pile@.len() >= 2)),
        r == Err::<u8, GameError>(GameError::NotInitialized) <==> !(old(game_state).is_shuffled
            && old(game_state).player_hands@.len() > 0),
        (old(game_state).is_shuffled && old(game_state).player_hands@.len() > 0) ==> (r
            == Err::<u8, GameError>(GameError::InvalidPlayer) <==> old(
            game_state,
        ).player_hands@.len() <= player_id as int),
        r == Err::<u8, GameError>(GameError::NoCardsAvailable) <==> (old(game_state).is_shuffled
            && old(game_state).player_hands@.len() > player_id as int && old(
            game_state,
        ).draw_pile@.len() == 0 && old(game_state).discard_pile@.len() <= 1),
        r is Ok ==> ({
            let pre = *old(game_state);
            let post = *final(game_state);
            let card = r->Ok_0;
            // the piles the card was drawn from, after any replenishment
            let source = if pre.draw_pile@.len() > 0 {
                pre.draw_pile@
            } else {
                shuffled_of(pre.discard_pile@.drop_last(), inc_word_spec(pre.seed_metadata.value@))
            };
            &&& source.len() > 0
            &&& source.to_multiset() == (if pre.draw_pile@.len() > 0 {
                pre.draw_pile@
            } else {
                pre.discard_pile@.drop_last()
            }).to_multiset()
            &&& card == source.last()
            &&& post.draw_pile@ == source.drop_last()
            &&& post.discard_pile@ == if pre.draw_pile@.len() > 0 {
                pre.discard_pile@
            } else {
                seq![pre.discard_pile@.last()]
            }
            &&& post.player_hands@ == pre.player_hands@.update(
                player_id as int,
                post.player_hands@[player_id as int],
            )
            &&& post.player_hands@[player_id as int]@ == pre.player_hands@[player_id as int]@.push(
                card,
            )
            &&& post.spec_total() == pre.spec_total()
        }),
{
    if !game_state.is_initialized() {
        return Err(GameError::NotInitialized);
    }
    if !game_state.is_valid_player(player_id) {
        return Err(GameError::InvalidPlayer);
    }
    let ghost pre = *game_state;
    if game_state.draw_pile.is_empty() {
        if game_state.discard_pile.len() <= 1 {
            return Err(GameError::NoCardsAvailable);
        }
        let top_card = match game_state.discard_pile.pop() {
            Some(c) => c,
            None => {
                return Err(GameError::NoCardsAvailable);
            },
        };
        game_state.draw_pile.append(&mut game_state.discard_pile);
        game_state.discard_pile.push(top_card);
        proof {
            assert(game_state.draw_pile@ =~= pre.discard_pile@.drop_last());
            assert(game_state.discard_pile@ =~= seq![pre.discard_pile@.last()]);
        }
        let new_seed = increment_word(&game_state.seed_metadata.value);
        let ghost before_shuffle = game_state.draw_pile@;
        shuffle_deck(&mut game_state.draw_pile, &new_seed);
        proof {
            lemma_multiset_equal_in_range(game_state.draw_pile@, before_shuffle);
        }
    }
    let card = match game_state.draw_pile.pop() {
        Some(c) => c,
        None => {
            return Err(GameError::NoCardsAvailable);
        },
    };
    let mut hand = game_state.player_hands.remove(player_id as usize);
    hand.push(card);
    game_state.player_hands.insert(player_id as usize, hand);
    proof {
        let pid = player_id as int;
        let post = *game_state;
        assert(post.player_hands@ =~= pre.player_hands@.update(pid, post.player_hands@[pid]));
        lemma_sum_update(
            pre.player_hands@,
            pre.player_hands@.len() as int,
            post.player_hands@[pid],
            pid,
        );
    }
    Ok(card)
}

/// Draw several cards in a row for a player.  Every drawn card lands on the
/// player's hand; an error partway through leaves the cards already drawn in
/// place.
pub fn draw_multiple_cards(game_state: &mut GameState, player_id: PlayerId, count: u8) -> (r:
    Result<Vec<u8>, GameError>)
    requires
        old(game_state).wf(),
    ensures
        final(game_state).wf(),
        final(game_state).is_shuffled == old(game_state).is_shuffled,
        final(game_state).seed_metadata == old(game_state).seed_metadata,
        final(game_state).spec_total() == old(game_state).spec_total(),
        count == 0 ==> *final(game_state) == *old(game_state) && r is Ok
            && r->Ok_0@.len() == 0,
        r is Ok && count > 0 ==> ({
            let drawn = r->Ok_0;
            &&& drawn@.len() == count as int
            &&& (player_id as int) < old(game_state).player_hands@.len()
            &&& final(game_state).player_hands@.len() == old(game_state).player_hands@.len()
            &&& final(game_state).player_hands@[player_id as int]@ == old(
                game_state,
            ).player_hands@[player_id as int]@ + drawn@
        }),
        // the first draw's validation errors leave the game untouched
        count > 0 ==> (r == Err::<Vec<u8>, GameError>(GameError::NotInitialized) <==> !(old(
            game_state,
        ).is_shuffled && old(game_state).player_hands@.len() > 0)),
        (count > 0 && old(game_state).is_shuffled && old(game_state).player_hands@.len() > 0)
            ==> (r == Err::<Vec<u8>, GameError>(GameError::InvalidPlayer) <==> old(
            game_state,
        ).player_hands@.len() <= player_id as int),
        (r == Err::<Vec<u8>, GameError>(GameError::NotInitialized) || r == Err::<
            Vec<u8>,
            GameError,
        >(GameError::InvalidPlayer)) ==> *final(game_state) == *old(game_state),
        // running out of cards partway leaves the cards already drawn on the
        // player's hand
        r == Err::<Vec<u8>, GameError>(GameError::NoCardsAvailable) ==> ({
            let pre = *old(game_state);
            let post = *final(game_state);
            let hand = pre.player_hands@[player_id as int]@;
            &&& pre.is_shuffled
            &&& (player_id as int) < pre.player_hands@.len()
            &&& post.player_hands@.len() == pre.player_hands@.len()
            &&& post.player_hands@ == pre.player_hands@.update(
                player_id as int,
                post.player_hands@[player_id as int],
            )
            &&& post.player_hands@[player_id as int]@.len() >= hand.len()
            &&& post.player_hands@[player_id as int]@.subrange(0, hand.len() as int) == hand
            &&& post.player_hands@[player_id as int]@.len() < hand.len() + count
        }),
        // a draw pile that can cover the whole request guarantees success
        (old(game_state).is_shuffled && old(game_state).player_hands@.len() > 0 && (
        player_id as int) < old(game_state).player_hands@.len() && count as int <= old(
            game_state,
        ).draw_pile@.len()) ==> r is Ok,
{
    let mut drawn_cards: Vec<u8> = Vec::new();
    if count == 0 {
        return Ok(drawn_cards);
    }
    let ghost pre = *game_state;
    let mut n: u8 = 0;
    while n < count
        invariant
            pre == *old(game_state),
            n <= count,
            count > 0,
            game_state.wf(),
            game_state.is_shuffled == pre.is_shuffled,
            game_state.seed_metadata == pre.seed_metadata,
            game_state.spec_total() == pre.spec_total(),
            drawn_cards@.len() == n as int,
            n > 0 ==> pre.is_shuffled && pre.player_hands@.len() > 0 && (player_id as int)
                < pre.player_hands@.len() && game_state.player_hands@.len()
                == pre.player_hands@.len() && game_state.player_hands@[player_id as int]@
                == pre.player_hands@[player_id as int]@ + drawn_cards@
                && game_state.player_hands@ == pre.player_hands@.update(
                player_id as int,
                game_state.player_hands@[player_id as int],
            ),
            n == 0 ==> *game_state == pre,
            (pre.is_shuffled && pre.player_hands@.len() > 0 && (player_id as int)
                < pre.player_hands@.len() && count as int <= pre.draw_pile@.len())
                ==> game_state.draw_pile@.len() >= pre.draw_pile@.len() - n as int,
        decreases count - n,
    {
        let ghost at_start = *game_state;
        let card = match draw_card(game_state, player_id) {
            Ok(c) => c,
            Err(e) => {
                proof {
                    if n > 0 {
                        assert(at_start.is_shuffled && at_start.player_hands@.len() > 0 && (
                        player_id as int) < at_start.player_hands@.len());
                        assert(e != GameError::NotInitialized && e != GameError::InvalidPlayer);
                    }
                    if e == GameError::NoCardsAvailable {
                        assert(game_state.player_hands@ =~= pre.player_hands@.update(
                            player_id as int,
                            game_state.player_hands@[player_id as int],
                        ));
                        assert(game_state.player_hands@[player_id as int]@.subrange(
                            0,
                            pre.player_hands@[player_id as int]@.len() as int,
                        ) =~= pre.player_hands@[player_id as int]@);
                    }
                }
                return Err(e);
            },
        };
        drawn_cards.push(card);
        proof {
            assert(game_state.player_hands@ =~= pre.player_hands@.update(
                player_id as int,
                game_state.player_hands@[player_id as int],
            ));
        }
        n += 1;
    }
    Ok(drawn_cards)
}

/// Play the card at `card_index` from the player's hand onto the discard
/// pile.
pub fn play_card(game_state: &mut GameState, player_id: PlayerId, card_index: usize) -> (r: Result<
    u8,
    GameError,
>)
    requires
        old(game_state).wf(),
    ensures
        final(game_state).wf(),
        final(game_state).is_shuffled == old(game_state).is_shuffled,
        final(game_state).seed_metadata == old(game_state).seed_metadata,
        final(game_state).proof_cid == old(game_state).proof_cid,
        r is Err ==> *final(game_state) == *old(game_state),
        r is Ok <==> (old(game_state).is_shuffled && old(game_state).player_hands@.len() > 0 && (
        player_id as int) < old(game_state).player_hands@.len() && (card_index as int) < old(
            game_state,
        ).player_hands@[player_id as int]@.len()),
        r == Err::<u8, GameError>(GameError::NotInitialized) <==> !(old(game_state).is_shuffled
            && old(game_state).player_hands@.len() > 0),
        (old(game_state).is_shuffled && old(game_state).player_hands@.len() > 0) ==> (r
            == Err::<u8, GameError>(GameError::InvalidPlayer) <==> old(
            game_state,
        ).player_hands@.len() <= player_id as int),
        (old(game_state).is_shuffled && old(game_state).player_hands@.len() > player_id as int)
            ==> (r == Err::<u8, GameError>(GameError::CardIndexOutOfBounds) <==> old(
            game_state,
        ).player_hands@[player_id as int]@.len() <= card_index as int),
        r is Ok ==> ({
            let pre = *old(game_state);
            let post = *final(game_state);
            let hand = pre.player_hands@[player_id as int]@;
            &&& (card_index as int) < hand.len()
            &&& r->Ok_0 == hand[card_index as int]
            &&& post.player_hands@[player_id as int]@ == hand.remove(card_index as int)
            &&& post.player_hands@ == pre.player_hands@.update(
                player_id as int,
                post.player_hands@[player_id as int],
            )
            &&& post.discard_pile@ == pre.discard_pile@.push(r->Ok_0)
            &&& post.draw_pile@ == pre.draw_pile@
            &&& post.spec_total() == pre.spec_total()
        }),
{
    if !game_state.is_initialized() {
        return Err(GameError::NotInitialized);
    }
    if !game_state.is_valid_player(player_id) {
        return Err(GameError::InvalidPlayer);
    }
    let ghost pre = *game_state;
    let hand_len = game_state.player_hands[player_id as usize].len();
    if card_index >= hand_len {
        return Err(GameError::CardIndexOutOfBounds);
    }
    let mut hand = game_state.player_hands.remove(player_id as usize);
    let played_card = hand.remove(card_index);
    game_state.player_hands.insert(player_id as usize, hand);
    game_state.discard_pile.push(played_card);
    proof {
        let pid = player_id as int;
        let post = *game_state;
        assert(post.player_hands@ =~= pre.player_hands@.update(pid, post.player_hands@[pid]));
        lemma_sum_update(
            pre.player_hands@,
            pre.player_hands@.len() as int,
            post.player_hands@[pid],
            pid,
        );
    }
    Ok(played_card)
}

/// Borrow a player's hand.
pub fn get_initial_hands_ref(game_state: &GameState, player_id: PlayerId) -> (r: Result<
    &Vec<u8>,
    GameError,
>)
    ensures
        r is Ok <==> (game_state.is_shuffled && game_state.player_hands@.len() > 0 && (
        player_id as int) < game_state.player_hands@.len()),
        r == Err::<&Vec<u8>, GameError>(GameError::NotInitialized) <==> !(game_state.is_shuffled
            && game_state.player_hands@.len() > 0),
        (game_state.is_shuffled && game_state.player_hands@.len() > 0) ==> (r
            == Err::<&Vec<u8>, GameError>(GameError::InvalidPlayer) <==> game_state.player_hands@.len()
            <= player_id as int),
        r matches Ok(h) ==> (player_id as int) < game_state.player_hands@.len() && *h
            == game_state.player_hands@[player_id as int],
{
    if !game_state.is_initialized() {
        return Err(GameError::NotInitialized);
    }
    if (player_id as usize) >= game_state.player_hands.len() {
        return Err(GameError::InvalidPlayer);
    }
    Ok(&game_state.player_hands[player_id as usize])
}

/// Copy a player's hand out.
pub fn get_initial_hands(game_state: &GameState, player_id: PlayerId) -> (r: Result<
    Vec<u8>,
    GameError,
>)
    ensures
        r is Ok <==> (game_state.is_shuffled && game_state.player_hands@.len() > 0 && (
        player_id as int) < game_state.player_hands@.len()),
        r == Err::<Vec<u8>, GameError>(GameError::NotInitialized) <==> !(game_state.is_shuffled
            && game_state.player_hands@.len() > 0),
        (game_state.is_shuffled && game_state.player_hands@.len() > 0) ==> (r
            == Err::<Vec<u8>, GameError>(GameError::InvalidPlayer) <==> game_state.player_hands@.len()
            <= player_id as int),
        r matches Ok(h) ==> (player_id as int) < game_state.player_hands@.len() && h@
            == game_state.player_hands@[player_id as int]@,
{
    match get_initial_hands_ref(game_state, player_id) {
        Ok(hand) => {
            let copied = copy_cards(hand);
            Ok(copied)
        },
        Err(e) => Err(e),
    }
}

/// Copy a sequence of cards.
fn copy_cards(cards: &Vec<u8>) -> (r: Vec<u8>)
    ensures
        r@ == cards@,
{
    let n = cards.len();
    let mut out: Vec<u8> = Vec::new();
    let mut i: usize = 0;
    while i < n
        invariant
            i <= n,
            n == cards@.len(),
            out@ == cards@.subrange(0, i as int),
        decreases n - i,
    {
        out.push(cards[i]);
        proof {
            assert(out@ =~= cards@.subrange(0, i as int + 1));
        }
        i += 1;
    }
    proof {
        assert(cards@.subrange(0, n as int) =~= cards@);
    }
    out
}

} // verus!
