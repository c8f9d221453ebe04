use match_sim::entities::{Player, Position};
use match_sim::random::RandomSource;
use match_sim::scouting::{
    contains_text, first_identity_of, player_from_row, players_from_rows, quality_of_draw,
    read_cell, read_page, read_row, strip_breaks, Cell, PageError,
};

fn plain(text: &str) -> Cell {
    Cell { markup: String::from(text), links: Vec::new() }
}

fn linked(markup: &str, link: &str) -> Cell {
    Cell { markup: String::from(markup), links: vec![String::from(link)] }
}

fn player_row(name: &str, code: &str) -> Vec<Cell> {
    vec![
        linked(&format!("<a href=\"/p/1\">{}</a>", name), name),
        plain("<img src=\"flag.png\">"),
        plain("club"),
        plain("01/02/1990"),
        plain("183 cm"),
        plain(code),
    ]
}

#[test]
fn line_breaks_are_left_out() {
    assert_eq!(strip_breaks("a\r\nb\n"), "ab");
    assert_eq!(strip_breaks("\r\n\r\n"), "");
    assert_eq!(strip_breaks(""), "");
    assert_eq!(strip_breaks("no breaks"), "no breaks");
    assert_eq!(strip_breaks("tab\tstays é\n"), "tab\tstays é");
}

#[test]
fn a_text_is_found_where_it_stands() {
    assert!(contains_text("before <img src=x> after", "<img"));
    assert!(contains_text("<img", "<img"));
    assert!(contains_text("xx<img", "<img"));
    assert!(contains_text("<a href=\"x\">y</a>", "<a href"));
    assert!(contains_text("abc", ""));
    assert!(contains_text("", ""));
    assert!(contains_text("ééa", "éa"));
}

#[test]
fn a_text_is_not_found_where_it_does_not_stand() {
    assert!(!contains_text("", "a"));
    assert!(!contains_text("ab", "abc"));
    assert!(!contains_text("<im g", "<img"));
    assert!(!contains_text("<a  href", "<a href"));
    assert!(!contains_text("aab", "aba"));
}

#[test]
fn a_plain_cell_holds_its_markup() {
    assert_eq!(read_cell(&plain("183 cm")), Some(String::from("183 cm")));
    assert_eq!(read_cell(&plain("18\r\n3 cm\n")), Some(String::from("183 cm")));
    assert_eq!(read_cell(&plain("")), Some(String::new()));
}

#[test]
fn a_cell_with_a_link_holds_the_text_of_the_link() {
    let cell = linked("<a href=\"/p/7\">Jan\r\n Smit</a> (c)", "Jan\r\n Smit");
    assert_eq!(read_cell(&cell), Some(String::from("Jan Smit")));
}

#[test]
fn the_first_link_of_a_cell_gives_its_text() {
    let cell = Cell {
        markup: String::from("<a href=\"/a\">first</a> and <a href=\"/b\">second</a>"),
        links: vec![String::from("first"), String::from("second")],
    };
    assert_eq!(read_cell(&cell), Some(String::from("first")));
}

#[test]
fn a_link_is_looked_at_only_where_the_markup_has_one() {
    assert_eq!(read_cell(&linked("plain", "other")), Some(String::from("plain")));
    assert_eq!(read_cell(&plain("<a href=\"/p\">x</a>")), Some(String::from("<a href=\"/p\">x</a>")));
}

#[test]
fn a_cell_with_an_image_holds_nothing() {
    assert_eq!(read_cell(&plain("<img src=\"flag.png\">")), None);
    assert_eq!(read_cell(&linked("<a href=\"/c\"><img src=\"x\"></a>", "<img src=\"x\">")), None);
    assert_eq!(read_cell(&plain("<i\nmg>")), None);
}

#[test]
fn the_values_of_a_row_are_those_of_its_cells() {
    let values = read_row(&player_row("Jan Smit", "AV"));
    assert_eq!(values, vec!["Jan Smit", "club", "01/02/1990", "183 cm", "AV"]);
    assert!(read_row(&Vec::new()).is_empty());
    assert!(read_row(&vec![plain("<img>"), plain("<img>")]).is_empty());
}

#[test]
fn a_row_of_five_values_is_a_player() {
    let values: Vec<String> =
        ["Jan Smit", "club", "01/02/1990", "183 cm", "KP"].iter().map(|v| v.to_string()).collect();
    let player = player_from_row(&values, 17, 63).unwrap();
    assert_eq!(
        player,
        Player {
            id: 17,
            name: String::from("Jan Smit"),
            dob: String::from("01/02/1990"),
            height: String::from("183 cm"),
            position: Position::Goalkeeper,
            quality: 63,
        }
    );
    let mut longer = values.clone();
    longer.push(String::from("more"));
    assert_eq!(player_from_row(&longer, 17, 63), Some(player));
}

#[test]
fn a_row_of_fewer_values_is_no_player() {
    let values: Vec<String> = ["Jan", "club", "1990", "183"].iter().map(|v| v.to_string()).collect();
    assert_eq!(player_from_row(&values, 1, 50), None);
    assert_eq!(player_from_row(&Vec::new(), 1, 50), None);
}

#[test]
fn qualities_start_at_fifty() {
    assert_eq!(quality_of_draw(0), 50);
    assert_eq!(quality_of_draw(1), 51);
    assert_eq!(quality_of_draw(49), 99);
}

#[test]
fn each_page_has_fifty_identities() {
    assert_eq!(first_identity_of(1), 0);
    assert_eq!(first_identity_of(2), 50);
    assert_eq!(first_identity_of(11), 500);
}

#[test]
fn the_players_of_a_page_are_numbered_in_row_order() {
    let rows = vec![
        vec![plain("Name"), plain("Born")],
        player_row("Jan Smit", "AV"),
        Vec::new(),
        player_row("Piet Vos", "kp"),
        player_row("Kees Bos", "??"),
    ];
    let mut source = RandomSource::from_seed(3);
    let players = players_from_rows(&rows, 50, &mut source);
    assert_eq!(players.len(), 3);
    let ids: Vec<u32> = players.iter().map(|p| p.id).collect();
    assert_eq!(ids, vec![50, 51, 52]);
    let names: Vec<&str> = players.iter().map(|p| p.name.as_str()).collect();
    assert_eq!(names, vec!["Jan Smit", "Piet Vos", "Kees Bos"]);
    let roles: Vec<Position> = players.iter().map(|p| p.position).collect();
    assert_eq!(roles, vec![Position::Attacker, Position::Goalkeeper, Position::NotOnTheField]);
    assert!(players.iter().all(|p| p.dob == "01/02/1990" && p.height == "183 cm"));
    assert!(players.iter().all(|p| 50 <= p.quality && p.quality <= 99));
}

#[test]
fn one_draw_is_made_for_each_player() {
    let rows = vec![vec![plain("header")], player_row("Jan", "AV"), player_row("Piet", "MV")];
    let mut used = RandomSource::from_seed(8);
    let mut fresh = RandomSource::from_seed(8);
    let players = players_from_rows(&rows, 0, &mut used);
    let first = quality_of_draw(fresh.draw(0, 50));
    let second = quality_of_draw(fresh.draw(0, 50));
    assert_eq!((players[0].quality, players[1].quality), (first, second));
    assert_eq!(used.draw(0, 1000), fresh.draw(0, 1000));
}

#[test]
fn qualities_vary_with_the_draws() {
    let rows: Vec<Vec<Cell>> = (0..200).map(|_| player_row("Jan", "AV")).collect();
    let mut source = RandomSource::from_seed(21);
    let players = players_from_rows(&rows, 0, &mut source);
    let mut seen = [false; 100];
    for player in &players {
        seen[player.quality as usize] = true;
    }
    assert!(seen.iter().filter(|hit| **hit).count() > 25);
    assert!(seen[..50].iter().all(|hit| !*hit));
}

#[test]
fn a_page_without_rows_has_no_players() {
    let mut source = RandomSource::from_seed(1);
    assert!(players_from_rows(&Vec::new(), 0, &mut source).is_empty());
}

const PAGE: &str = "<html><body>\
<table class=\"standard_tabelle\">\
<tr><th>Name</th><th></th><th>Club</th><th>Born</th><th>Height</th><th>Pos</th></tr>\
<tr><td><a href=\"/p/jan\">Jan\n Smit</a></td><td><img src=\"nl.png\"></td><td>Ajax</td>\
<td>01/02/1990</td><td>183 cm</td><td>AV</td></tr>\
<tr><td>too</td><td>short</td></tr>\
<tr><td>Piet Vos</td><td>PSV</td><td>03/04/1991</td><td>180 cm</td><td>kp</td></tr>\
</table>\
<table class=\"other\"><tr><td>a</td><td>b</td><td>c</td><td>d</td><td>e</td></tr></table>\
<table class=\"standard_tabelle\">\
<tr><td>Kees Bos</td><td>AZ</td><td>05/06/1992</td><td>177 cm</td><td>Mv</td><td>more</td></tr>\
</table>\
</body></html>";

#[test]
fn the_players_of_a_page_are_read_from_its_markup() {
    let mut source = RandomSource::from_seed(14);
    let players = read_page(PAGE, 100, &mut source).unwrap();
    let read: Vec<(u32, &str, &str, &str, Position)> = players
        .iter()
        .map(|p| (p.id, p.name.as_str(), p.dob.as_str(), p.height.as_str(), p.position))
        .collect();
    assert_eq!(
        read,
        vec![
            (100, "Jan Smit", "01/02/1990", "183 cm", Position::Attacker),
            (101, "Piet Vos", "03/04/1991", "180 cm", Position::Goalkeeper),
            (102, "Kees Bos", "05/06/1992", "177 cm", Position::Midfield),
        ]
    );
    assert!(players.iter().all(|p| 50 <= p.quality && p.quality <= 99));
}

#[test]
fn a_page_is_read_the_same_with_the_same_seed() {
    let mut first = RandomSource::from_seed(3);
    let mut second = RandomSource::from_seed(3);
    assert_eq!(read_page(PAGE, 0, &mut first), read_page(PAGE, 0, &mut second));
    assert_eq!(first.draw(0, 1000), second.draw(0, 1000));
}

#[test]
fn a_page_without_the_table_has_no_players() {
    let mut source = RandomSource::from_seed(1);
    assert_eq!(read_page("", 0, &mut source), Ok(Vec::new()));
    assert_eq!(read_page("<p>no table here</p>", 0, &mut source), Ok(Vec::new()));
    let other = "<table><tr><td>a</td><td>b</td><td>c</td><td>d</td><td>e</td></tr></table>";
    assert_eq!(read_page(other, 0, &mut source), Ok(Vec::new()));
}

#[test]
fn a_page_with_more_rows_than_identities_is_an_error() {
    let mut source = RandomSource::from_seed(1);
    // The page has five rows in its two tables.
    assert_eq!(read_page(PAGE, u32::MAX - 4, &mut source), Err(PageError::TooManyRows));
    assert_eq!(read_page(PAGE, u32::MAX, &mut source), Err(PageError::TooManyRows));
    let last = read_page(PAGE, u32::MAX - 5, &mut source).unwrap();
    assert_eq!(last[2].id, u32::MAX - 3);
}
