use mde::files::{name_matches, network_label, parse_smb_shares};

#[test]
fn parse_smb_shares_takes_disk_shares_only() {
    let out = "\
Anonymous login successful

\tSharename       Type      Comment
\t---------       ----      -------
\tpublic          Disk      Public files
\tmedia           Disk      Movies & music
\tIPC$            IPC       IPC Service (server)
\tprint$          Disk      Printer Drivers

\tServer               Comment
\t---------            -------
\tFILESERVER           Samba
";
    let shares = parse_smb_shares(out);
    assert_eq!(shares, vec!["public".to_string(), "media".to_string()]);
}

#[test]
fn parse_smb_shares_handles_no_table() {
    assert!(parse_smb_shares("session setup failed: NT_STATUS_ACCESS_DENIED").is_empty());
    assert!(parse_smb_shares("").is_empty());
}

#[test]
fn search_filter_is_case_insensitive_substring() {
    assert!(name_matches("Report.PDF", "report"));
    assert!(name_matches("Report.PDF", "pdf"));
    assert!(name_matches("Report.PDF", ""));
    assert!(name_matches("budget.xlsx", "bud"));
    assert!(!name_matches("Report.PDF", "xyz"));
}

#[test]
fn network_label_decodes_gvfs_names() {
    assert_eq!(network_label("/run/user/1000/gvfs/smb-share:server=nas,share=media"), "media on nas");
    assert_eq!(network_label("/run/user/1000/gvfs/sftp:host=server.lan,user=me"), "server.lan (SFTP)");
    assert_eq!(network_label("/run/user/1000/gvfs/dav:host=files.example"), "files.example (DAV)");
    assert_eq!(network_label("/x/weird-mount"), "weird-mount");
}
