use tcr_runtime::primitives::Error;
use tcr_runtime::tcr;
use tcr_runtime::token;

const SUPPLY: u64 = 1_000_000;
const ACCOUNTS: u64 = 6;
const SUBJECTS: u64 = 400;

struct Rng(u64);

impl Rng {
    fn next(&mut self) -> u64 {
        self.0 = self.0.wrapping_mul(6364136223846793005).wrapping_add(1442695040888963407);
        self.0 >> 33
    }

    fn below(&mut self, bound: u64) -> u64 {
        self.next() % bound
    }
}

fn subject(tag: u64) -> [u8; 32] {
    let mut hash = [0x3Cu8; 32];
    hash[7] = (tag % 256) as u8;
    hash[19] = (tag / 256) as u8;
    hash
}

fn held(ledger: &token::Module) -> u64 {
    let mut sum: u64 = 0;
    for account in 1..=ACCOUNTS {
        sum += ledger.balance_of(account);
    }
    for tag in 0..SUBJECTS {
        sum += ledger.locked_deposits(&subject(tag));
    }
    sum
}

fn short_of_funds(error: Error) -> bool {
    error == Error::InsufficientBalance || error == Error::Overflow
}

fn run(seed: u64, steps: usize) -> [usize; 9] {
    let mut done = [0usize; 9];
    let mut rng = Rng(seed);
    let mut ledger = token::Module::new(1, SUPPLY);
    let mut registry = tcr::Module::new(Some(10), Some(40), Some(30));
    assert_eq!(ledger.init(&1), Ok(()));
    for account in 2..=ACCOUNTS {
        assert!(ledger.transfer(1, account, SUPPLY / 8).is_ok());
    }
    let mut now: u64 = 0;
    for step in 0..steps {
        now += rng.below(3);
        let sender: u64 = 1 + rng.below(ACCOUNTS);
        let other: u64 = 1 + rng.below(ACCOUNTS);
        let amount = rng.below(400);
        let listing_id = (registry.listing_count() as u64).saturating_sub(rng.below(6)) as u32;
        let poll_nonce = (registry.poll_nonce() as u64).saturating_sub(rng.below(5)) as u32;
        match rng.below(14) {
            0 => {
                done[0] += ledger.transfer(sender, other, amount).is_ok() as usize;
            },
            1 => {
                done[1] += ledger.approve(sender, other, amount).is_ok() as usize;
            },
            2 => {
                let third: u64 = 1 + rng.below(ACCOUNTS);
                done[2] += ledger.transfer_from(sender, other, third, amount).is_ok() as usize;
            },
            3 | 4 => {
                let tag = rng.below(SUBJECTS);
                let data = vec![(tag % 256) as u8, (tag / 256) as u8];
                let proposed =
                    registry.propose(&mut ledger, sender, now, data, subject(tag), amount);
                done[3] += proposed.is_ok() as usize;
            },
            5 | 6 => {
                let stake = match registry.index_hash(listing_id) {
                    Some(hash) => registry.listings(&hash).unwrap().deposit + rng.below(50),
                    None => amount,
                };
                let challenged = registry.challenge(&mut ledger, sender, now, listing_id, stake);
                done[4] += challenged.is_ok() as usize;
            },
            7 | 8 | 9 => {
                let value = rng.below(2) == 0;
                let voted = registry.vote(&mut ledger, sender, now, poll_nonce, value, amount);
                done[5] += voted.is_ok() as usize;
            },
            10 => match registry.resolve(&mut ledger, now, listing_id) {
                Ok(_) => done[6] += 1,
                Err(error) => assert!(!short_of_funds(error)),
            },
            11 | 12 => match registry.claim_reward(&mut ledger, sender, poll_nonce) {
                Ok(_) => done[7] += 1,
                Err(error) => assert!(!short_of_funds(error)),
            },
            _ => {
                done[8] += registry.finalize(now, listing_id).is_ok() as usize;
            },
        }
        if step % 16 == 0 {
            assert_eq!(held(&ledger), SUPPLY);
        }
    }
    assert_eq!(held(&ledger), SUPPLY);
    for poll_nonce in 1..registry.poll_nonce() {
        let listing_hash = registry.challenges(poll_nonce).unwrap().listing_hash;
        let listing_id = registry.listings(&listing_hash).unwrap().id;
        assert_eq!(registry.listings(&listing_hash).unwrap().challenge_id, poll_nonce);
        match registry.resolve(&mut ledger, u64::MAX, listing_id) {
            Ok(_) | Err(Error::AlreadyResolved) => {},
            Err(error) => panic!("resolution refused: {:?}", error),
        }
        let passed = registry.polls(poll_nonce).unwrap().passed;
        assert_eq!(registry.listings(&listing_hash).unwrap().whitelisted, passed);
        for voter in 1..=ACCOUNTS {
            let cast = registry.votes(poll_nonce, voter).map(|vote| (vote.value, vote.claimed));
            let expected = match cast {
                None => Err(Error::NotFound),
                Some((_, true)) => Err(Error::AlreadyClaimed),
                Some((value, false)) if value != passed => Err(Error::NotAWinner),
                Some(_) => Ok(tcr::Event::Claimed(voter, poll_nonce)),
            };
            assert_eq!(registry.claim_reward(&mut ledger, voter, poll_nonce), expected);
        }
    }
    assert_eq!(held(&ledger), SUPPLY);
    done
}

#[test]
fn random_histories_conserve_value_and_stay_funded() {
    let mut done = [0usize; 9];
    for seed in 0..12u64 {
        let counts = run(seed.wrapping_mul(0x9E3779B97F4A7C15) ^ 0xD1B54A32D192ED03, 1500);
        for (sum, count) in done.iter_mut().zip(counts) {
            *sum += count;
        }
    }
    for count in done {
        assert!(count >= 5, "operations that succeeded, by kind: {:?}", done);
    }
}

#[test]
fn long_history_conserves_value_and_stays_funded() {
    let done = run(2024, 4000);
    for count in done {
        assert!(count >= 5, "operations that succeeded, by kind: {:?}", done);
    }
}
