use little_tokio::task::Id;
use little_tokio::token::Token;

#[test]
fn id_payload_round_trip() {
    let id = Id(42);
    assert_eq!(Id::from_ptr(id.to_ptr()), id);
    assert_eq!(Id::from_ptr(7).to_ptr(), 7);
}

#[test]
fn token_payload_round_trip() {
    let token = Token(42);
    assert_eq!(Token::from_ptr(token.to_ptr()), token);
    assert_eq!(Token::from_ptr(7).to_ptr(), 7);
}

#[test]
fn token_id_round_trip() {
    let id = Id(11);
    let token = Token::from(id);
    assert_eq!(token, Token(11));
    assert_eq!(Id::from(token), id);

    let token = Token(23);
    let id = Id::from(token);
    assert_eq!(id, Id(23));
    assert_eq!(Token::from(id), token);
}

#[test]
fn id_increment_hands_out_current_value() {
    let mut counter = Id::default();
    assert_eq!(counter, Id(0));
    assert_eq!(counter.increment(), Id(0));
    assert_eq!(counter.increment(), Id(1));
    assert_eq!(counter, Id(2));
}

#[test]
fn token_increment_hands_out_current_value() {
    let mut counter = Token::default();
    assert_eq!(counter.increment(), Token(0));
    assert_eq!(counter.increment(), Token(1));
    assert_eq!(counter, Token(2));
}
