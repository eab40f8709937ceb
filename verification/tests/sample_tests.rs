use sfsynth::error::SampleDecodeError;
use sfsynth::sample::Reader;
use sfsynth::sample::SFSampleHeader;

fn one_record() -> Vec<u8> {
    let mut data: Vec<u8> = Vec::new();
    let mut name = b"Sample A".to_vec();
    name.resize(20, 0);
    data.extend_from_slice(&name);
    data.extend_from_slice(&[0x01, 0x02, 0x03, 0x04]); // start
    data.extend_from_slice(&[0x05, 0x00, 0x00, 0x00]); // end
    data.extend_from_slice(&[0x0A, 0x00, 0x00, 0x00]); // loop_start
    data.extend_from_slice(&[0x0B, 0x00, 0x00, 0x00]); // loop_end
    data.extend_from_slice(&[0x44, 0xAC, 0x00, 0x00]); // sample_rate = 44100
    data.push(60); // origpitch
    data.push(200); // pitchadj = -56
    data.extend_from_slice(&[0x02, 0x01]); // sample_link = 258
    data.extend_from_slice(&[0x01, 0x00]); // sample_type = 1
    assert_eq!(data.len(), 46);
    data
}

#[test]
fn decodes_every_field_in_cursor_order() {
    let mut reader = Reader::new(one_record());
    let rec = SFSampleHeader::read(&mut reader);
    assert_eq!(rec.name.len(), 20);
    assert_eq!(&rec.name[0..8], "Sample A");
    assert_eq!(&rec.name[8..20], "\0\0\0\0\0\0\0\0\0\0\0\0");
    assert_eq!(rec.start, 0x0403_0201);
    assert_eq!(rec.end, 5);
    assert_eq!(rec.loop_start, 10);
    assert_eq!(rec.loop_end, 11);
    assert_eq!(rec.sample_rate, 44100);
    assert_eq!(rec.origpitch, 60);
    assert_eq!(rec.pitchadj, -56);
    assert_eq!(rec.sample_link, 258);
    assert_eq!(rec.sample_type, 1);
}

#[test]
fn read_advances_the_cursor_record_by_record() {
    let mut data = one_record();
    let mut second = one_record();
    second[20] = 0xFF; // start of record two = 0x040302FF
    data.extend_from_slice(&second);
    let mut reader = Reader::new(data);
    let first = SFSampleHeader::read(&mut reader);
    let next = SFSampleHeader::read(&mut reader);
    assert_eq!(first.start, 0x0403_0201);
    assert_eq!(next.start, 0x0403_02FF);
}

#[test]
fn chunk_of_n_records_decodes_to_n_records_in_file_order() {
    let mut data = one_record();
    let mut second = one_record();
    second[45] = 0x00;
    second[44] = 0x04; // sample_type = 4
    data.extend_from_slice(&second);
    let headers = SFSampleHeader::read_all(data).unwrap();
    assert_eq!(headers.len(), 2);
    assert_eq!(headers[0].sample_type, 1);
    assert_eq!(headers[1].sample_type, 4);
}

#[test]
fn empty_chunk_is_structurally_invalid() {
    let r = SFSampleHeader::read_all(Vec::new());
    assert_eq!(r.unwrap_err(), SampleDecodeError::InvalidChunkSize);
}

#[test]
fn chunk_of_46n_plus_1_is_structurally_invalid() {
    let mut data = one_record();
    data.push(0);
    let r = SFSampleHeader::read_all(data);
    assert_eq!(r.unwrap_err(), SampleDecodeError::InvalidChunkSize);
}

#[test]
fn decoding_is_idempotent() {
    let mut data = one_record();
    data.extend_from_slice(&one_record());
    let once = SFSampleHeader::read_all(data.clone()).unwrap();
    let twice = SFSampleHeader::read_all(data).unwrap();
    assert_eq!(once, twice);
}
