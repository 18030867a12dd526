use ani_tui::scraper::episodes::parse_episodes_from_html;
use ani_tui::scraper::search::{parse_search_results, search_url, urlencoding_simple};
use ani_tui::scraper::sources::parse_sources_from_html;
use ani_tui::structs::{AnimeCategory, AudioType};

const SEARCH_PAGE: &str = "<script>window.__NUXT__={data:{results:[\
{id:\"197\",title:\"One Piece\",synopsis:\"Luffy quiere ser \\\"el rey\\\".\\nFin\",categoryId:1,slug:\"one-piece\",category:{id:1,name:\"TV Anime\",slug:\"tv-anime\"}},\
{id:\"1340\",title:\"One Piece Film: Red\",categoryId:2,slug:\"one-piece-film-red\"},\
{title:\"Sin id\",slug:\"sin-id\"}\
],total:3,pagination:{totalPages:2,totalRecords:53}}}</script>";

#[test]
fn search_results_are_read_from_the_page() {
    let r = parse_search_results(SEARCH_PAGE, 1);
    assert_eq!(r.animes.len(), 2);
    assert_eq!(r.animes[0].id, "197");
    assert_eq!(r.animes[0].title, "One Piece");
    assert_eq!(r.animes[0].slug, "one-piece");
    assert_eq!(r.animes[0].synopsis, "Luffy quiere ser \"el rey\".\nFin");
    assert!(matches!(r.animes[0].category, AnimeCategory::TvAnime));
    assert_eq!(r.animes[1].id, "1340");
    assert!(matches!(r.animes[1].category, AnimeCategory::Movie));
    assert_eq!(r.animes[1].synopsis, "");
    assert_eq!(r.pagination.current_page, 1);
    assert_eq!(r.pagination.total_pages, 2);
    assert_eq!(r.pagination.total_records, 53);
}

#[test]
fn search_page_without_results_is_empty() {
    let r = parse_search_results("<html>nada</html>", 3);
    assert!(r.animes.is_empty());
    assert_eq!(r.pagination.current_page, 3);
    assert_eq!(r.pagination.total_pages, 0);
    assert_eq!(r.pagination.total_records, 0);
}

#[test]
fn search_pagination_defaults() {
    let r = parse_search_results("results:[{id:\"1\",title:\"A\",slug:\"a\"}],total:1", 1);
    assert_eq!(r.animes.len(), 1);
    assert_eq!(r.pagination.total_pages, 1);
    assert_eq!(r.pagination.total_records, 1);
    assert!(matches!(&r.animes[0].category, AnimeCategory::Unknown(s) if s == "0"));
}

#[test]
fn query_encoding() {
    assert_eq!(urlencoding_simple("one piece"), "one+piece");
    assert_eq!(urlencoding_simple("a&b"), "a%26b");
    assert_eq!(urlencoding_simple("x\ny"), "x%0Ay");
    assert_eq!(urlencoding_simple("ñ-_"), "ñ-_");
    assert_eq!(urlencoding_simple("€"), "%20AC");
    assert_eq!(search_url("one piece", 2), "https://animeav1.com/catalogo?search=one+piece&page=2");
}

const MEDIA_PAGE: &str = "{media:{id:197,title:\"One Piece\",episodesCount:1166,score:8.72,malId:21,\
category:{id:1,name:\"TV Anime\"},\
episodes:[{id:3434,number:2},{id:3433,number:1},{id:9,number:99999999999},{id:3435,number:3}]}}";

#[test]
fn episodes_are_read_and_ordered() {
    let (eps, meta) = parse_episodes_from_html(MEDIA_PAGE, "one-piece");
    let keys: Vec<(u32, u32)> = eps.iter().map(|e| (e.id, e.number)).collect();
    assert_eq!(keys, vec![(3433, 1), (3434, 2), (3435, 3)]);
    assert!(eps.iter().all(|e| e.anime_slug == "one-piece"));
    assert_eq!(meta.episodes_count, Some(1166));
    assert_eq!(meta.score.as_deref(), Some("8.72"));
    assert_eq!(meta.mal_id, Some(21));
    assert!(matches!(meta.category, Some(AnimeCategory::TvAnime)));
}

#[test]
fn episodes_block_by_bracket_counting() {
    // no `}` before the closing bracket: the pattern fails, the brackets do not
    let page = "episodes:[{id:1,number:1},[x],{id:2,number:2} ]";
    let (eps, meta) = parse_episodes_from_html(page, "a");
    assert_eq!(eps.len(), 2);
    assert_eq!(meta.episodes_count, None);
    assert_eq!(meta.score, None);
}

#[test]
fn page_without_episodes() {
    let (eps, _) = parse_episodes_from_html("<html></html>", "a");
    assert!(eps.is_empty());
}

#[test]
fn score_that_is_not_a_number_is_dropped() {
    let (_, meta) = parse_episodes_from_html("score:8.7.1,", "a");
    assert_eq!(meta.score, None);
}

const EPISODE_PAGE: &str = "{episode:{number:1,embeds:{SUB:[{server:\"HLS\",url:\"https://player.zilla-networks.com/play/7601658844858539e438dceee32e7924\"},\
{server:\"Mega\",url:\"https://mega.nz/embed/abc\"},{server:\"Bad\",url:\"ftp://x\"}],\
DUB:[{server:\"PDrain\",url:\"https://pixeldrain.com/u/MJzY7Ab1?embed\"}]},downloads:{}}}";

#[test]
fn sources_are_read_by_audio() {
    let s = parse_sources_from_html(EPISODE_PAGE).unwrap();
    assert_eq!(s.sub.len(), 2);
    assert_eq!(s.sub[0].server, "HLS");
    assert_eq!(s.sub[1].server, "Mega");
    assert_eq!(s.sub[1].url, "https://mega.nz/embed/abc");
    assert_eq!(s.sub[0].audio, AudioType::Sub);
    assert_eq!(s.dub.len(), 1);
    assert_eq!(s.dub[0].server, "PDrain");
    assert_eq!(s.dub[0].audio, AudioType::Dub);
    assert!(s.has_dub());
    assert_eq!(s.best_for_mpv(&AudioType::Sub).unwrap().server, "HLS");
}

#[test]
fn sources_without_downloads_use_brace_counting() {
    let page = "embeds:{SUB:[{server:\"Mega\",url:\"https://mega.nz/x\"}]}}";
    let s = parse_sources_from_html(page).unwrap();
    assert_eq!(s.sub.len(), 1);
    assert!(s.dub.is_empty());
    assert!(!s.has_dub());
}

#[test]
fn page_without_sources() {
    let s = parse_sources_from_html("<html></html>").unwrap();
    assert!(s.sub.is_empty() && s.dub.is_empty());
}

#[test]
fn equal_numbers_keep_page_order() {
    let page = "episodes:[{id:9,number:2},{id:3,number:1},{id:7,number:1}]";
    let (eps, _) = parse_episodes_from_html(page, "a");
    let got: Vec<(u32, u32)> = eps.iter().map(|e| (e.id, e.number)).collect();
    assert_eq!(got, vec![(3, 1), (7, 1), (9, 2)]);
}
