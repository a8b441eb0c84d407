//! Configuration validation and the upstream locations.

use riic_fetch::config::check_quality;
use riic_fetch::config::ImageConfig;
use riic_fetch::config::SaveConfig;
use riic_fetch::errors::PipelineError;
use riic_fetch::server::fetch_url;
use riic_fetch::server::RecordFamily;
use riic_fetch::Server;

#[test]
fn quality_is_bounded() {
    assert_eq!(check_quality(1).unwrap(), 1);
    assert_eq!(check_quality(100).unwrap(), 100);
    assert!(matches!(check_quality(0), Err(PipelineError::Decode(_))));
    match check_quality(101) {
        Err(PipelineError::Decode(m)) => assert_eq!(m, "101"),
        _ => panic!("expected a decode error naming the value"),
    }
}

#[test]
fn save_config_validates_its_quality() {
    let c = SaveConfig::new("data/ops.json".to_string(), "img/ops".to_string(), 80).unwrap();
    assert_eq!(c.data_path, "data/ops.json");
    assert_eq!(c.image_dir, "img/ops");
    assert_eq!(c.quality, 80);
    assert!(SaveConfig::new(String::new(), String::new(), 0).is_err());
}

#[test]
fn image_config_hands_out_its_whitelist() {
    let c = ImageConfig::new(vec!["item1".to_string()], "img/items".to_string(), 50).unwrap();
    assert_eq!(c.image_ids(), &vec!["item1".to_string()]);
}

#[test]
fn locale_base_urls() {
    assert_eq!(
        Server::CN.base_url(),
        "https://raw.githubusercontent.com/Kengxxiao/ArknightsGameData/master/zh_CN"
    );
    assert_eq!(
        Server::US.base_url(),
        "https://raw.githubusercontent.com/Kengxxiao/ArknightsGameData_YoStar/master/en_US"
    );
}

#[test]
fn fetch_urls_join_base_and_family_path() {
    assert_eq!(
        fetch_url(&Server::CN, &RecordFamily::Base),
        "https://raw.githubusercontent.com/Kengxxiao/ArknightsGameData/master/zh_CN/gamedata/excel/building_data.json"
    );
    assert_eq!(
        RecordFamily::Operator.remote_path(),
        "gamedata/excel/character_table.json"
    );
    assert_eq!(RecordFamily::Terms.remote_path(), "gamedata/excel/gamedata_const.json");
}
