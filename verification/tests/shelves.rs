use north_pole::shelves::elf;

fn counts(body: &str) -> (usize, usize, usize) {
    let found = elf(body.to_string());
    (found.elf, found.elf_shelves, found.shelves)
}

#[test]
fn elves_are_counted() {
    let body = "The mischievous elf peeked out from behind the toy workshop, \
                and another elf joined in the festive dance. \
                Look, there is also an elf on that shelf!";
    assert_eq!(counts(body), (4, 0, 1));
}

#[test]
fn shelves_with_and_without_elves_are_told_apart() {
    let body = "there is an elf on a shelf on an elf. there is also another shelf in Belfast.";
    assert_eq!(counts(body), (5, 1, 1));
}

#[test]
fn empty_text_holds_nothing() {
    assert_eq!(counts(""), (0, 0, 0));
    assert_eq!(counts("el"), (0, 0, 0));
    assert_eq!(counts("Elf ELF eLf"), (0, 0, 0));
}

#[test]
fn bare_patterns_are_counted_once() {
    assert_eq!(counts("elf"), (1, 0, 0));
    assert_eq!(counts("shelf"), (1, 0, 1));
    assert_eq!(counts("elf on a shelf"), (2, 1, 0));
}

#[test]
fn adjacent_matches_are_all_counted() {
    assert_eq!(counts("elfelfelf"), (3, 0, 0));
    assert_eq!(counts("shelfshelf"), (2, 0, 2));
    assert_eq!(counts("elf on a shelfelf on a shelf"), (4, 2, 0));
}

#[test]
fn overlapping_matches_are_counted_once() {
    assert_eq!(counts("elf on a shelf on a shelf"), (3, 1, 1));
    assert_eq!(counts("elf on a shelf on a shelf on a shelf"), (4, 2, 1));
}

#[test]
fn counts_agree_with_the_standard_library() {
    let bodies = [
        "eelff shelf shel elf on a shelf on a shelf elf on a  shelf",
        "shelf on an elf on a shelf, elf on a shelf on a shelf on a shelfelf",
        "ééelf on a shelfé 🧝 elf 🧝elf on a shelf",
        "elf on a shel",
        "fle no a flehs",
    ];
    for body in bodies {
        let elves = body.matches("elf").count();
        let elf_shelves = body.matches("elf on a shelf").count();
        let shelves = body.matches("shelf").count() - elf_shelves;
        assert_eq!(counts(body), (elves, elf_shelves, shelves), "{body:?}");
    }
}
