use subsquid_client::BaseUrl;
use subsquid_client::ClientBuilder;
use subsquid_client::DataSource;

#[test]
fn test_using_data_source_in_builder_posses_expected_data_source() {
    let url = BaseUrl::parse("http://example.org").expect("Can't fail on correctly formatted URL");
    let data_source = DataSource::Subsquid(url);

    let builder = ClientBuilder::new().with_data_source(data_source.clone());

    let expected_data_source = Some(data_source);
    let actual_data_source = builder.data_source.clone();

    assert_eq!(expected_data_source, actual_data_source);
}

#[test]
fn test_using_data_source_in_builder_does_not_panic() {
    let url = BaseUrl::parse("http://example.org").expect("Can't fail on correctly formatted URL");
    let data_source = DataSource::Subsquid(url);

    let builder = ClientBuilder::new().with_data_source(data_source);

    // The builder must not panic.
    let _ = builder.build();
}

#[test]
fn setting_the_data_source_twice_keeps_the_last_one() {
    let first = DataSource::Subsquid(BaseUrl::parse("http://one.example").unwrap());
    let second = DataSource::Subsquid(BaseUrl::parse("http://two.example").unwrap());

    let builder = ClientBuilder::new().with_data_source(first).with_data_source(second.clone());

    assert_eq!(builder.data_source, Some(second));
}

#[test]
fn building_binds_the_client_to_the_source() {
    let url = BaseUrl::parse("http://example.org").unwrap();
    let client = ClientBuilder::new().with_data_source(DataSource::Subsquid(url)).build();

    assert_eq!(client.base.as_str(), "http://example.org/");
}
