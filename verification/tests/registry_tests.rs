use lumen_core::badges::{Error as BadgeError, LumenPassBadges};
use lumen_core::invoice_registry::{Error as InvoiceError, Invoice, InvoiceRegistry};
use lumen_core::registrar::{Registrar, RegistrarError};

const ISSUER: u64 = 3;
const PAYER: u64 = 4;
const OWNER: u64 = 11;

#[test]
fn invoices_get_sequential_ids() {
    let mut reg = InvoiceRegistry::new();
    assert_eq!(reg.count(), 0);
    let a = reg.issue(ISSUER, Some(PAYER), 500, Some(42), &vec![ISSUER]).unwrap();
    let b = reg.issue(ISSUER, None, 700, None, &vec![ISSUER]).unwrap();
    assert_eq!(a, 0);
    assert_eq!(b, 1);
    assert_eq!(reg.count(), 2);
    assert_eq!(
        reg.get(0),
        Some(Invoice {
            id: 0,
            issuer: ISSUER,
            payer: Some(PAYER),
            amount: 500,
            paid: false,
            reference: Some(42),
        })
    );
    assert_eq!(reg.get(5), None);
}

#[test]
fn issuing_needs_authorization() {
    let mut reg = InvoiceRegistry::new();
    let r = reg.issue(ISSUER, None, 500, None, &vec![PAYER]);
    assert_eq!(r.unwrap_err(), InvoiceError::Unauthorized);
    assert_eq!(reg.count(), 0);
}

#[test]
fn mark_paid_is_issuer_gated_and_one_shot() {
    let mut reg = InvoiceRegistry::new();
    let id = reg.issue(ISSUER, None, 500, None, &vec![ISSUER]).unwrap();
    let r = reg.mark_paid(9, ISSUER, &vec![ISSUER]);
    assert_eq!(r.unwrap_err(), InvoiceError::NotFound);
    let r = reg.mark_paid(id, ISSUER, &vec![PAYER]);
    assert_eq!(r.unwrap_err(), InvoiceError::Unauthorized);
    let r = reg.mark_paid(id, PAYER, &vec![PAYER]);
    assert_eq!(r.unwrap_err(), InvoiceError::NotIssuer);
    reg.mark_paid(id, ISSUER, &vec![ISSUER]).unwrap();
    assert!(reg.get(id).unwrap().paid);
    let r = reg.mark_paid(id, ISSUER, &vec![ISSUER]);
    assert_eq!(r.unwrap_err(), InvoiceError::AlreadyPaid);
}

#[test]
fn registrar_binds_and_resolves_names() {
    let mut reg = Registrar::new();
    reg.init(OWNER, &vec![OWNER]).unwrap();
    reg.set(b"core".to_vec(), 500, &vec![OWNER]).unwrap();
    assert_eq!(reg.resolve(&b"core".to_vec()), Some(500));
    assert_eq!(reg.resolve(&b"other".to_vec()), None);
    // rebinding replaces
    let ev = reg.set(b"core".to_vec(), 600, &vec![OWNER]).unwrap();
    assert_eq!(ev.name, b"core".to_vec());
    assert_eq!(ev.contract, 600);
    assert_eq!(reg.resolve(&b"core".to_vec()), Some(600));
}

#[test]
fn registrar_remove_unbinds() {
    let mut reg = Registrar::new();
    reg.init(OWNER, &vec![OWNER]).unwrap();
    reg.set(b"core".to_vec(), 500, &vec![OWNER]).unwrap();
    reg.set(b"aux".to_vec(), 501, &vec![OWNER]).unwrap();
    reg.remove(&b"core".to_vec(), &vec![OWNER]).unwrap();
    assert_eq!(reg.resolve(&b"core".to_vec()), None);
    assert_eq!(reg.resolve(&b"aux".to_vec()), Some(501));
    // removing an unbound name still succeeds and changes nothing
    reg.remove(&b"gone".to_vec(), &vec![OWNER]).unwrap();
    assert_eq!(reg.resolve(&b"aux".to_vec()), Some(501));
}

#[test]
fn registrar_is_owner_gated() {
    let mut reg = Registrar::new();
    let r = reg.set(b"core".to_vec(), 500, &vec![OWNER]);
    assert_eq!(r.unwrap_err(), RegistrarError::NotInitialized);
    reg.init(OWNER, &vec![OWNER]).unwrap();
    let r = reg.init(OWNER, &vec![OWNER]);
    assert_eq!(r.unwrap_err(), RegistrarError::AlreadyInitialized);
    let r = reg.set(b"core".to_vec(), 500, &vec![PAYER]);
    assert_eq!(r.unwrap_err(), RegistrarError::Unauthorized);
    let r = reg.remove(&b"core".to_vec(), &vec![PAYER]);
    assert_eq!(r.unwrap_err(), RegistrarError::Unauthorized);
}

#[test]
fn badges_mint_sequentially() {
    let mut b = LumenPassBadges::new();
    b.init(OWNER, b"https://example/".to_vec(), b"Badges".to_vec(), b"BDG".to_vec(), &vec![OWNER])
        .unwrap();
    assert_eq!(b.owner(), OWNER);
    let ev = b.mint_badge(PAYER, &vec![OWNER]).unwrap();
    assert_eq!(ev.token_id, 0);
    assert_eq!(ev.recipient, PAYER);
    let ev = b.mint_badge(ISSUER, &vec![OWNER]).unwrap();
    assert_eq!(ev.token_id, 1);
}

#[test]
fn badges_are_owner_gated() {
    let mut b = LumenPassBadges::new();
    let r = b.mint_badge(PAYER, &vec![OWNER]);
    assert_eq!(r.unwrap_err(), BadgeError::NotInitialized);
    b.init(OWNER, b"u".to_vec(), b"n".to_vec(), b"s".to_vec(), &vec![OWNER]).unwrap();
    let r = b.init(OWNER, b"u".to_vec(), b"n".to_vec(), b"s".to_vec(), &vec![OWNER]);
    assert_eq!(r.unwrap_err(), BadgeError::AlreadyInitialized);
    let r = b.mint_badge(PAYER, &vec![PAYER]);
    assert_eq!(r.unwrap_err(), BadgeError::NotAuthorized);
    let r = b.set_metadata(b"u2".to_vec(), b"n2".to_vec(), b"s2".to_vec(), &vec![PAYER]);
    assert_eq!(r.unwrap_err(), BadgeError::NotAuthorized);
    b.set_metadata(b"u2".to_vec(), b"n2".to_vec(), b"s2".to_vec(), &vec![OWNER]).unwrap();
}
