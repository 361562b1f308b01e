use casino::crypto::hash_bytes;
use casino::error::Error;
use casino::table::{
    compute_entropy, ContractResponse, GameData, GamePhase, Operation, PlayerActionKind,
    PlayerStatus, Tables,
};

const DEALER: u64 = 1;
const ALICE: u64 = 2;
const BOB: u64 = 3;

fn commitment_for(secret: &[u8]) -> Vec<u8> {
    hash_bytes(&secret.to_vec())
}

fn vrf_output(public_key: &[u8], proof: &[u8], message: &[u8]) -> Vec<u8> {
    let mut buffer = Vec::new();
    buffer.extend_from_slice(public_key);
    buffer.extend_from_slice(proof);
    buffer.extend_from_slice(message);
    hash_bytes(&buffer)
}

fn create_two_player_game() -> Tables {
    let mut tables = Tables::new();
    let response = tables
        .execute(
            Operation::CreateGame {
                max_players: 2,
                min_bet: 10,
                allow_mid_join: false,
                vrf_public_key: vec![1u8; 32],
                round_timeout: None,
            },
            DEALER,
            1,
        )
        .unwrap();
    assert_eq!(response, ContractResponse::GameCreated { game_id: 0 });
    tables
}

fn game(tables: &Tables, game_id: u64) -> &GameData {
    for entry in &tables.games {
        if entry.0 == game_id {
            return &entry.1;
        }
    }
    panic!("game not found");
}

#[test]
fn create_game_flow() {
    let mut tables = Tables::new();
    let response = tables
        .execute(
            Operation::CreateGame {
                max_players: 2,
                min_bet: 10,
                allow_mid_join: false,
                vrf_public_key: vec![1u8; 32],
                round_timeout: None,
            },
            DEALER,
            0,
        )
        .unwrap();
    match response {
        ContractResponse::GameCreated { game_id } => {
            assert_eq!(game_id, 0);
        }
        _ => panic!("Unexpected response"),
    }
}

#[test]
fn join_guards() {
    let mut tables = create_two_player_game();
    // A malformed commitment is rejected before anything else.
    let short = tables.execute(
        Operation::JoinGame { game_id: 0, bet: 10, commitment: vec![1u8; 31] },
        ALICE,
        2,
    );
    assert_eq!(short, Err(Error::WrongLength));
    // A bet below the table minimum is rejected.
    let low = tables.execute(
        Operation::JoinGame { game_id: 0, bet: 9, commitment: commitment_for(b"a") },
        ALICE,
        2,
    );
    assert_eq!(low, Err(Error::BetBelowMinimum));
    // Joining twice is rejected.
    tables
        .execute(
            Operation::JoinGame { game_id: 0, bet: 10, commitment: commitment_for(b"a") },
            ALICE,
            2,
        )
        .unwrap();
    let twice = tables.execute(
        Operation::JoinGame { game_id: 0, bet: 10, commitment: commitment_for(b"a") },
        ALICE,
        2,
    );
    assert_eq!(twice, Err(Error::AlreadyJoined));
    // A missing game id fails closed.
    let missing = tables.execute(
        Operation::JoinGame { game_id: 9, bet: 10, commitment: commitment_for(b"a") },
        BOB,
        2,
    );
    assert_eq!(missing, Err(Error::GameNotFound));
}

#[test]
fn commitment_soundness() {
    let mut tables = create_two_player_game();
    tables
        .execute(
            Operation::JoinGame { game_id: 0, bet: 10, commitment: commitment_for(b"alice") },
            ALICE,
            2,
        )
        .unwrap();
    tables
        .execute(
            Operation::JoinGame { game_id: 0, bet: 10, commitment: commitment_for(b"bob") },
            BOB,
            2,
        )
        .unwrap();
    // The table is full, so the reveal phase has opened.
    assert_eq!(game(&tables, 0).phase, GamePhase::Reveal);
    // A reveal whose secret does not hash to the commitment must fail.
    let wrong = tables.execute(
        Operation::RevealCommitment { game_id: 0, secret: b"eve".to_vec() },
        ALICE,
        3,
    );
    assert_eq!(wrong, Err(Error::CommitmentMismatch));
    // The matching secret must succeed.
    tables
        .execute(Operation::RevealCommitment { game_id: 0, secret: b"alice".to_vec() }, ALICE, 3)
        .unwrap();
    // Revealing is per player: the table waits for everyone.
    assert_eq!(game(&tables, 0).phase, GamePhase::Reveal);
    tables
        .execute(Operation::RevealCommitment { game_id: 0, secret: b"bob".to_vec() }, BOB, 3)
        .unwrap();
    assert_eq!(game(&tables, 0).phase, GamePhase::AwaitingVrf);
}

#[test]
fn entropy_absent_until_all_reveal() {
    let mut tables = create_two_player_game();
    tables
        .execute(
            Operation::JoinGame { game_id: 0, bet: 10, commitment: commitment_for(b"alice") },
            ALICE,
            2,
        )
        .unwrap();
    tables
        .execute(
            Operation::JoinGame { game_id: 0, bet: 10, commitment: commitment_for(b"bob") },
            BOB,
            2,
        )
        .unwrap();
    tables
        .execute(Operation::RevealCommitment { game_id: 0, secret: b"alice".to_vec() }, ALICE, 3)
        .unwrap();
    // One player has not revealed: the combined entropy must be absent.
    let output = vec![9u8; 32];
    let players = &game(&tables, 0).players;
    assert!(compute_entropy(0, players, &output).is_none());
    tables
        .execute(Operation::RevealCommitment { game_id: 0, secret: b"bob".to_vec() }, BOB, 3)
        .unwrap();
    let players = &game(&tables, 0).players;
    assert!(compute_entropy(0, players, &output).is_some());
}

#[test]
fn vrf_gating_and_deal() {
    let mut tables = create_two_player_game();
    tables
        .execute(
            Operation::JoinGame { game_id: 0, bet: 10, commitment: commitment_for(b"alice") },
            ALICE,
            2,
        )
        .unwrap();
    tables
        .execute(
            Operation::JoinGame { game_id: 0, bet: 10, commitment: commitment_for(b"bob") },
            BOB,
            2,
        )
        .unwrap();
    tables
        .execute(Operation::RevealCommitment { game_id: 0, secret: b"alice".to_vec() }, ALICE, 3)
        .unwrap();
    tables
        .execute(Operation::RevealCommitment { game_id: 0, secret: b"bob".to_vec() }, BOB, 3)
        .unwrap();
    // A claimed output the verification function does not reproduce fails.
    let forged = tables.execute(
        Operation::SubmitVrf {
            game_id: 0,
            output: vec![7u8; 32],
            proof: b"p".to_vec(),
            message: b"m".to_vec(),
        },
        DEALER,
        4,
    );
    assert_eq!(forged, Err(Error::VrfInvalid));
    // Only the dealer may submit.
    let good = vrf_output(&[1u8; 32], b"p", b"m");
    let not_dealer = tables.execute(
        Operation::SubmitVrf {
            game_id: 0,
            output: good.clone(),
            proof: b"p".to_vec(),
            message: b"m".to_vec(),
        },
        ALICE,
        4,
    );
    assert_eq!(not_dealer, Err(Error::NotDealer));
    tables
        .execute(
            Operation::SubmitVrf {
                game_id: 0,
                output: good,
                proof: b"p".to_vec(),
                message: b"m".to_vec(),
            },
            DEALER,
            4,
        )
        .unwrap();
    assert_eq!(game(&tables, 0).phase, GamePhase::ReadyToDeal);
    assert!(game(&tables, 0).combined_entropy.is_some());
    // Dealing hands two cards to everyone and opens the turn queue.
    tables.execute(Operation::DealInitialHands { game_id: 0 }, DEALER, 5).unwrap();
    let g = game(&tables, 0);
    assert_eq!(g.players[0].hand.len(), 2);
    assert_eq!(g.players[1].hand.len(), 2);
    assert_eq!(g.dealer_hand.len(), 2);
    assert_eq!(g.deck.len(), 52 - 6);
    assert!(g.phase == GamePhase::PlayerTurns || g.phase == GamePhase::DealerTurn);
}

fn advance_to_player_turns(tables: &mut Tables) {
    tables
        .execute(
            Operation::JoinGame { game_id: 0, bet: 10, commitment: commitment_for(b"alice") },
            ALICE,
            2,
        )
        .unwrap();
    tables
        .execute(
            Operation::JoinGame { game_id: 0, bet: 10, commitment: commitment_for(b"bob") },
            BOB,
            2,
        )
        .unwrap();
    tables
        .execute(Operation::RevealCommitment { game_id: 0, secret: b"alice".to_vec() }, ALICE, 3)
        .unwrap();
    tables
        .execute(Operation::RevealCommitment { game_id: 0, secret: b"bob".to_vec() }, BOB, 3)
        .unwrap();
    let good = vrf_output(&[1u8; 32], b"p", b"m");
    tables
        .execute(
            Operation::SubmitVrf {
                game_id: 0,
                output: good,
                proof: b"p".to_vec(),
                message: b"m".to_vec(),
            },
            DEALER,
            4,
        )
        .unwrap();
    tables.execute(Operation::DealInitialHands { game_id: 0 }, DEALER, 5).unwrap();
}

#[test]
fn turn_order_and_settlement() {
    let mut tables = create_two_player_game();
    advance_to_player_turns(&mut tables);
    // Let every queued player stand, in queue order; acting out of turn is
    // rejected.
    loop {
        let queue = game(&tables, 0).turn_order.clone();
        if queue.is_empty() {
            break;
        }
        let current = queue[0];
        let other = if current == ALICE { BOB } else { ALICE };
        if queue.len() > 1 {
            let out_of_turn = tables.execute(
                Operation::PlayerAction { game_id: 0, action: PlayerActionKind::Stand },
                other,
                6,
            );
            assert_eq!(out_of_turn, Err(Error::NotYourTurn));
        }
        let response = tables
            .execute(
                Operation::PlayerAction { game_id: 0, action: PlayerActionKind::Stand },
                current,
                6,
            )
            .unwrap();
        assert_eq!(response, ContractResponse::PlayerState { status: PlayerStatus::Stood });
    }
    assert_eq!(game(&tables, 0).phase, GamePhase::DealerTurn);
    let settled = tables.execute(Operation::ResolveDealer { game_id: 0 }, DEALER, 7).unwrap();
    assert_eq!(settled, ContractResponse::GameSettled { game_id: 0 });
    let g = game(&tables, 0);
    assert_eq!(g.phase, GamePhase::Settled);
    for player in &g.players {
        assert_eq!(player.status, PlayerStatus::Settled);
        let outcome = player.result.unwrap();
        assert!(casino::engine::hand_value(&g.dealer_hand) == outcome.dealer_value);
        assert!(
            outcome.win_multiplier == 150
                || outcome.win_multiplier == 100
                || outcome.win_multiplier == 0
                || outcome.win_multiplier == -100
        );
    }
    // Settlement is terminal: the dealer cannot cancel any more.
    let cancel = tables.execute(Operation::CancelGame { game_id: 0 }, DEALER, 8);
    assert_eq!(cancel, Err(Error::WrongPhase));
}

#[test]
fn identical_entropy_deals_identically() {
    let mut a = create_two_player_game();
    let mut b = create_two_player_game();
    advance_to_player_turns(&mut a);
    advance_to_player_turns(&mut b);
    let ga = game(&a, 0);
    let gb = game(&b, 0);
    assert_eq!(ga.combined_entropy, gb.combined_entropy);
    assert_eq!(ga.players[0].hand, gb.players[0].hand);
    assert_eq!(ga.dealer_hand, gb.dealer_hand);
}

#[test]
fn only_dealer_cancels() {
    let mut tables = create_two_player_game();
    let not_dealer = tables.execute(Operation::CancelGame { game_id: 0 }, ALICE, 2);
    assert_eq!(not_dealer, Err(Error::NotDealer));
    tables.execute(Operation::CancelGame { game_id: 0 }, DEALER, 2).unwrap();
    assert_eq!(game(&tables, 0).phase, GamePhase::Cancelled);
}

#[test]
fn dealt_deck_is_actually_shuffled() {
    // If the seeded shuffle handed its input back unchanged, the remaining
    // deck after the deal would still be in canonical index order.
    let mut tables = create_two_player_game();
    advance_to_player_turns(&mut tables);
    let g = game(&tables, 0);
    let mut identity = true;
    for (i, card) in g.deck.iter().enumerate() {
        if card.to_index() != i as u8 {
            identity = false;
        }
    }
    assert!(!identity);
}
