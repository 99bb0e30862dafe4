use shortlink::slug::{draw_slug, slug_from_indices, ALPHABET_SIZE, SLUG_LENGTH};

#[test]
fn indices_select_symbols_in_alphabet_order() {
    assert_eq!(slug_from_indices(&[0, 9, 10, 35]), "10az");
    assert_eq!(slug_from_indices(&[8, 8, 8, 8]), "9999");
    assert_eq!(slug_from_indices(&[]), "");
    assert_eq!(slug_from_indices(&[11]), "b");
    let all: Vec<usize> = (0..ALPHABET_SIZE).collect();
    assert_eq!(slug_from_indices(&all), "1234567890abcdefghijklmnopqrstuvwxyz");
}

#[test]
fn drawn_slugs_have_the_generated_shape() {
    let mut rng = rand::thread_rng();
    for _ in 0..500 {
        let slug = draw_slug(&mut rng);
        assert_eq!(slug.chars().count(), SLUG_LENGTH);
        assert!(slug.chars().all(|c| c.is_ascii_digit() || c.is_ascii_lowercase()));
    }
}

#[test]
fn draws_differ() {
    let mut rng = rand::thread_rng();
    let first = draw_slug(&mut rng);
    let mut differs = false;
    for _ in 0..64 {
        if draw_slug(&mut rng) != first {
            differs = true;
        }
    }
    assert!(differs);
}
