use admin_nft::{Address, NftError, NFT};

fn addr(id: u64) -> Address {
    Address::new(id)
}

#[test]
fn instantiate_starts_empty() {
    let n = NFT::instantiate(addr(7));
    assert_eq!(n.len(), 0);
    assert_eq!(n.next_id(), 0);
    assert_eq!(n.payment_pool(), 0);
    assert_eq!(n.admin(), addr(7));
    assert!(!n.contains(0));
    assert!(n.get(0).is_none());
}

#[test]
fn admin_scenario_mint_burn_reject() {
    let a = addr(1);
    let b = addr(2);
    let c = addr(3);
    let x = addr(9);
    let mut n = NFT::instantiate(a);
    assert_eq!(n.mint(a, b, "m1".to_string()), Ok(0));
    assert_eq!(n.mint(a, c, "m2".to_string()), Ok(1));
    assert_eq!(n.burn(a, 0), Ok(0));
    assert_eq!(n.len(), 1);
    assert!(n.contains(1));
    assert!(!n.contains(0));
    assert_eq!(n.mint(x, b, "m3".to_string()), Err(NftError::Unauthorized));
    assert_eq!(n.next_id(), 2);
    assert_eq!(n.burn(a, 0), Err(NftError::NotFound));
    assert_eq!(n.len(), 1);
}

#[test]
fn minted_ids_increase_across_burns() {
    let a = addr(1);
    let mut n = NFT::instantiate(a);
    let mut seen: Vec<u64> = Vec::new();
    for round in 0..5u64 {
        let id = n.mint(a, addr(round), format!("t{}", round)).unwrap();
        if let Some(last) = seen.last() {
            assert!(id > *last);
        }
        assert!(!seen.contains(&id));
        seen.push(id);
        assert_eq!(n.burn(a, id), Ok(id));
    }
    assert_eq!(seen, vec![0, 1, 2, 3, 4]);
    assert_eq!(n.len(), 0);
    assert_eq!(n.next_id(), 5);
    assert_eq!(n.mint(a, a, String::new()), Ok(5));
}

#[test]
fn outsider_mint_changes_nothing() {
    let a = addr(1);
    let mut n = NFT::instantiate(a);
    assert_eq!(n.mint(a, a, "kept".to_string()), Ok(0));
    assert_eq!(n.mint(addr(2), addr(2), "nope".to_string()), Err(NftError::Unauthorized));
    assert_eq!(n.next_id(), 1);
    assert_eq!(n.len(), 1);
    assert_eq!(n.get(0).unwrap().metadata, "kept");
    assert!(!n.contains(1));
}

#[test]
fn outsider_burn_of_held_id_removes_nothing() {
    let a = addr(1);
    let mut n = NFT::instantiate(a);
    assert_eq!(n.mint(a, addr(5), "held".to_string()), Ok(0));
    assert_eq!(n.burn(addr(5), 0), Err(NftError::Unauthorized));
    assert!(n.contains(0));
    assert_eq!(n.len(), 1);
}

#[test]
fn outsider_burn_of_absent_id_is_unauthorized() {
    let mut n = NFT::instantiate(addr(1));
    assert_eq!(n.burn(addr(2), 3), Err(NftError::Unauthorized));
}

#[test]
fn burn_of_absent_id_is_not_found() {
    let a = addr(1);
    let mut n = NFT::instantiate(a);
    assert_eq!(n.burn(a, 0), Err(NftError::NotFound));
    assert_eq!(n.mint(a, a, "x".to_string()), Ok(0));
    assert_eq!(n.burn(a, 1), Err(NftError::NotFound));
    assert_eq!(n.burn(a, u64::MAX), Err(NftError::NotFound));
    assert_eq!(n.len(), 1);
    assert!(n.contains(0));
    assert_eq!(n.next_id(), 1);
}

#[test]
fn mint_stores_owner_and_metadata() {
    let a = addr(1);
    let mut n = NFT::instantiate(a);
    assert_eq!(n.mint(a, addr(4), "first".to_string()), Ok(0));
    assert_eq!(n.mint(a, addr(8), "second".to_string()), Ok(1));
    let r = n.get(1).unwrap();
    assert_eq!(r.owner, addr(8));
    assert_eq!(r.metadata, "second");
    let r = n.get(0).unwrap();
    assert_eq!(r.owner, addr(4));
    assert_eq!(r.metadata, "first");
    assert_eq!(n.burn(a, 1), Ok(1));
    assert!(n.get(1).is_none());
    assert_eq!(n.get(0).unwrap().metadata, "first");
}

#[test]
fn empty_metadata_is_accepted() {
    let a = addr(1);
    let mut n = NFT::instantiate(a);
    assert_eq!(n.mint(a, a, String::new()), Ok(0));
    assert_eq!(n.get(0).unwrap().metadata, "");
}

#[test]
fn admin_is_fixed_and_pool_untouched() {
    let a = addr(1);
    let mut n = NFT::instantiate(a);
    assert_eq!(n.mint(a, addr(2), "p".to_string()), Ok(0));
    assert_eq!(n.burn(a, 0), Ok(0));
    assert_eq!(n.admin(), a);
    assert_eq!(n.payment_pool(), 0);
}
