use teloxide_core::encrypted_passport_element::{
    EncryptedPassportElement, EncryptedPassportElementAddress, EncryptedPassportElementBankStatement,
    EncryptedPassportElementDriverLicense, EncryptedPassportElementEmail,
    EncryptedPassportElementIdentityCard, EncryptedPassportElementInternalPassport,
    EncryptedPassportElementKind, EncryptedPassportElementPassport,
    EncryptedPassportElementPassportRegistration, EncryptedPassportElementPersonalDetails,
    EncryptedPassportElementPhoneNumber, EncryptedPassportElementRentalAgreement,
    EncryptedPassportElementTemporaryRegistration, EncryptedPassportElementUtilityBill,
};
use teloxide_core::passport_file::PassportFile;
use teloxide_core::poll::{MessageEntity, MessageEntityKind, Poll, PollOption, PollType};
use teloxide_core::pre_checkout_query::{Currency, OrderInfo, PreCheckoutQuery, ShippingAddress};
use teloxide_core::user::User;

fn file(id: &str) -> PassportFile {
    PassportFile {
        file_id: id.to_string(),
        file_unique_id: format!("u{}", id),
        file_size: 1024,
        file_date: 1_600_000_000,
    }
}

fn user() -> User {
    User {
        id: 12,
        is_bot: false,
        first_name: "Ann".to_string(),
        last_name: None,
        username: Some("ann".to_string()),
        language_code: Some("en".to_string()),
    }
}

fn options() -> Vec<PollOption> {
    (1..=5).map(|i| PollOption::new(i.to_string(), if i == 1 { 1 } else { 0 })).collect()
}

#[test]
fn poll_new_sets_fields() {
    let p = Poll::new(
        "5377643193141559299".to_string(),
        "Rate me from 1 to 5.".to_string(),
        options(),
        false,
        1,
        true,
        PollType::Regular,
        false,
    );
    assert_eq!(p.id, "5377643193141559299");
    assert_eq!(p.question, "Rate me from 1 to 5.");
    assert_eq!(p.options.len(), 5);
    assert_eq!(p.options[0], PollOption::new("1".to_string(), 1));
    assert_eq!(p.options[4].text, "5");
    assert_eq!(p.options[4].voter_count, 0);
    assert!(!p.is_closed);
    assert_eq!(p.total_voter_count, 1);
    assert!(p.is_anonymous);
    assert_eq!(p.poll_type, PollType::Regular);
    assert!(!p.allows_multiple_answers);
    assert_eq!(p.correct_option_id, None);
    assert_eq!(p.explanation, None);
    assert_eq!(p.explanation_entities, None);
    assert_eq!(p.open_period, None);
    assert_eq!(p.close_date, None);
}

#[test]
fn poll_setters_change_one_field() {
    let p = Poll::new("a".to_string(), "q".to_string(), vec![], false, 0, false, PollType::Quiz, false);
    let entity = MessageEntity { kind: MessageEntityKind::Bold, offset: 0, length: 3 };
    let q = p
        .clone()
        .id("b".to_string())
        .question("why?".to_string())
        .options(options())
        .is_closed(true)
        .total_voter_count(7)
        .is_anonymous(true)
        .poll_type(PollType::Regular)
        .allows_multiple_answers(true)
        .correct_option_id(2)
        .explanation("see".to_string())
        .explanation_entities(vec![entity.clone()])
        .open_period(60)
        .close_date(1_700_000_000);
    assert_eq!(q.id, "b");
    assert_eq!(q.question, "why?");
    assert_eq!(q.options, options());
    assert!(q.is_closed);
    assert_eq!(q.total_voter_count, 7);
    assert!(q.is_anonymous);
    assert_eq!(q.poll_type, PollType::Regular);
    assert!(q.allows_multiple_answers);
    assert_eq!(q.correct_option_id, Some(2));
    assert_eq!(q.explanation, Some("see".to_string()));
    assert_eq!(q.explanation_entities, Some(vec![entity]));
    assert_eq!(q.open_period, Some(60));
    assert_eq!(q.close_date, Some(1_700_000_000));
    let r = p.clone().total_voter_count(3);
    assert_eq!(r.id, p.id);
    assert_eq!(r.total_voter_count, 3);
    assert_eq!(r.clone().total_voter_count(0), p);
}

#[test]
fn poll_option_builders() {
    let o = PollOption::new("yes".to_string(), 4);
    assert_eq!(o.text, "yes");
    assert_eq!(o.voter_count, 4);
    let o = o.text("no".to_string()).voter_count(9);
    assert_eq!(o, PollOption::new("no".to_string(), 9));
}

#[test]
fn pre_checkout_query_builders() {
    let q = PreCheckoutQuery::new("id1".to_string(), user(), Currency::USD, 145, "payload".to_string());
    assert_eq!(q.id, "id1");
    assert_eq!(q.from, user());
    assert_eq!(q.currency, Currency::USD);
    assert_eq!(q.total_amount, 145);
    assert_eq!(q.invoice_payload, "payload");
    assert_eq!(q.shipping_option_id, None);
    assert_eq!(q.order_info, None);
    let info = OrderInfo {
        name: Some("Ann".to_string()),
        phone_number: None,
        email: Some("ann@example.org".to_string()),
        shipping_address: Some(ShippingAddress {
            country_code: "DE".to_string(),
            state: String::new(),
            city: "Berlin".to_string(),
            street_line1: "Main 1".to_string(),
            street_line2: String::new(),
            post_code: "10115".to_string(),
        }),
    };
    let q2 = q
        .clone()
        .id("id2".to_string())
        .from(User { id: 13, ..user() })
        .currency(Currency::EUR)
        .total_amount(200)
        .invoice_payload("p2".to_string())
        .shipping_option_id("fast".to_string())
        .order_info(info.clone());
    assert_eq!(q2.id, "id2");
    assert_eq!(q2.from.id, 13);
    assert_eq!(q2.currency, Currency::EUR);
    assert_eq!(q2.total_amount, 200);
    assert_eq!(q2.invoice_payload, "p2");
    assert_eq!(q2.shipping_option_id, Some("fast".to_string()));
    assert_eq!(q2.order_info, Some(info));
    assert_ne!(q, q2);
}

#[test]
fn passport_element_builders() {
    let details = EncryptedPassportElementPersonalDetails::new("d".to_string());
    assert_eq!(details.data, "d");
    let e = EncryptedPassportElement::new(
        "h".to_string(),
        EncryptedPassportElementKind::PersonalDetails(details.clone()),
    );
    assert_eq!(e.hash, "h");
    assert_eq!(e.kind, EncryptedPassportElementKind::PersonalDetails(details.clone()));
    let addr = EncryptedPassportElementAddress::new("a".to_string()).data("b".to_string());
    let e2 = e.clone().hash("h2".to_string()).kind(EncryptedPassportElementKind::Address(addr.clone()));
    assert_eq!(e2.hash, "h2");
    assert_eq!(e2.kind, EncryptedPassportElementKind::Address(addr));
    assert_eq!(details.data("x".to_string()).data, "x");
}

#[test]
fn passport_documents_with_sides() {
    let p = EncryptedPassportElementPassport::new("d".to_string(), file("f"), file("s"));
    assert_eq!(p.front_side, file("f"));
    assert_eq!(p.selfie, file("s"));
    assert_eq!(p.translation, None);
    let p = p.data("e".to_string()).front_side(file("f2")).selfie(file("s2")).translation(vec![file("t")]);
    assert_eq!(p.data, "e");
    assert_eq!(p.front_side, file("f2"));
    assert_eq!(p.selfie, file("s2"));
    assert_eq!(p.translation, Some(vec![file("t")]));

    let d = EncryptedPassportElementDriverLicense::new("d".to_string(), file("f"), file("r"), file("s"));
    assert_eq!(d.reverse_side, file("r"));
    assert_eq!(d.translation, None);
    let d = d.data("x".to_string()).front_side(file("1")).reverse_side(file("2")).selfie(file("3")).translation(vec![]);
    assert_eq!((d.data.as_str(), d.front_side.file_id.as_str(), d.reverse_side.file_id.as_str()), ("x", "1", "2"));
    assert_eq!(d.selfie, file("3"));
    assert_eq!(d.translation, Some(vec![]));

    let c = EncryptedPassportElementIdentityCard::new("d".to_string(), file("f"), file("r"), file("s"));
    assert_eq!(c.data, "d");
    let c = c.data("y".to_string()).front_side(file("1")).reverse_side(file("2")).selfie(file("3")).translation(vec![file("t")]);
    assert_eq!(c.reverse_side, file("2"));
    assert_eq!(c.translation, Some(vec![file("t")]));

    let i = EncryptedPassportElementInternalPassport::new("d".to_string(), file("f"), file("s"));
    let i = i.data("z".to_string()).front_side(file("1")).selfie(file("2")).translation(vec![file("t")]);
    assert_eq!(i.data, "z");
    assert_eq!(i.front_side, file("1"));
    assert_eq!(i.selfie, file("2"));
    assert_eq!(i.translation.map(|v| v.len()), Some(1));
}

#[test]
fn passport_documents_with_files() {
    let u = EncryptedPassportElementUtilityBill::new(vec![file("1")]);
    assert_eq!(u.files, vec![file("1")]);
    assert_eq!(u.translation, None);
    let u = u.files(vec![file("2"), file("3")]).translation(vec![file("t")]);
    assert_eq!(u.files.len(), 2);
    assert_eq!(u.translation, Some(vec![file("t")]));

    let b = EncryptedPassportElementBankStatement::new(vec![]).files(vec![file("b")]).translation(vec![]);
    assert_eq!(b.files, vec![file("b")]);
    assert_eq!(b.translation, Some(vec![]));

    let r = EncryptedPassportElementRentalAgreement::new(vec![file("r")]);
    assert_eq!(r.translation, None);
    let r = r.files(vec![]).translation(vec![file("t")]);
    assert!(r.files.is_empty());

    let p = EncryptedPassportElementPassportRegistration::new(vec![file("p")]).files(vec![file("q")]).translation(vec![]);
    assert_eq!(p.files, vec![file("q")]);

    let t = EncryptedPassportElementTemporaryRegistration::new(vec![file("t")]);
    let kind = EncryptedPassportElementKind::EncryptedPassportElement(t.clone());
    assert_eq!(kind, EncryptedPassportElementKind::EncryptedPassportElement(t.clone()));
    let t = t.files(vec![]).translation(vec![file("x")]);
    assert_eq!(t.translation, Some(vec![file("x")]));
}

#[test]
fn passport_contacts() {
    let p = EncryptedPassportElementPhoneNumber::new("+100".to_string());
    assert_eq!(p.phone_number, "+100");
    assert_eq!(p.phone_number("+200".to_string()).phone_number, "+200");
    let e = EncryptedPassportElementEmail::new("a@b.c".to_string());
    assert_eq!(e.email, "a@b.c");
    assert_eq!(e.email("d@e.f".to_string()).email, "d@e.f");
}
