<!doctype html>
<html lang="en" data-bs-theme="light">
<head>
<meta charset="utf-8"><meta name="viewport" content="width=device-width, initial-scale=1">
<title>CalStack — Providers</title>
<link rel="stylesheet" href="/assets/css/bootstrap.min.css">
<link rel="stylesheet" href="/assets/css/bootstrap-icons.css">
<link rel="stylesheet" href="/assets/css/app.css">
<link rel="icon" type="image/png" sizes="16x16" href="/assets/img/favicon-16x16.png">
<link rel="icon" type="image/png" sizes="32x32" href="/assets/img/favicon-32x32.png">
<link rel="apple-touch-icon" href="/assets/img/apple-touch-icon.png">
<script src="/assets/js/theme.js"></script>
</head>
<body class="bg-body-tertiary">
<!-- header -->
<!-- admin menu -->
<div class="container p-3">
  <h1 class="h4 mb-3">Notification providers</h1>
  <form id="provider-form" class="card p-3 mb-4">
    <div class="row g-2 align-items-end">
      <div class="col-auto"><label class="form-label" for="provider-kind">Kind</label>
        <select class="form-select" id="provider-kind">
          <option value="postmark">Postmark (email)</option>
          <option value="smtp">SMTP (email)</option>
          <option value="twilio">Twilio (SMS)</option>
          <option value="webpush">Web Push</option>
        </select></div>
      <div class="col"><label class="form-label" for="provider-name">Name</label>
        <input class="form-control" id="provider-name" required></div>
    </div>
    <div id="provider-fields" class="row g-2 mt-1"></div>
    <div class="mt-2"><button class="btn btn-primary" type="submit">Add provider</button></div>
  </form>
  <table class="table table-sm bg-body">
    <thead><tr><th>Kind</th><th>Name</th><th>Enabled</th><th></th></tr></thead>
    <tbody id="provider-rows"></tbody>
  </table>
</div>
<div class="modal fade" id="provider-edit-modal" aria-hidden="true">
  <div class="modal-dialog"><form id="provider-edit-form" class="modal-content">
    <div class="modal-header"><h2 class="modal-title h5">Edit provider</h2>
      <button type="button" class="btn-close" data-bs-dismiss="modal"></button></div>
    <div class="modal-body">
      <input type="hidden" id="pe-id">
      <div class="row g-2">
        <div class="col-auto"><label class="form-label" for="pe-kind">Kind</label>
          <input class="form-control" id="pe-kind" readonly></div>
        <div class="col"><label class="form-label" for="pe-name">Name</label>
          <input class="form-control" id="pe-name" required></div>
      </div>
      <div id="pe-fields" class="row g-2 mt-1"></div>
      <div class="form-check mt-2"><input class="form-check-input" type="checkbox" id="pe-enabled">
        <label class="form-check-label" for="pe-enabled">Enabled</label></div>
    </div>
    <div class="modal-footer">
      <button class="btn btn-primary" type="submit">Save</button>
      <button class="btn btn-secondary" type="button" data-bs-dismiss="modal">Cancel</button>
    </div>
  </form></div>
</div>
<div class="modal fade" id="provider-test-modal" aria-hidden="true">
  <div class="modal-dialog"><form id="provider-test-form" class="modal-content">
    <div class="modal-header"><h2 class="modal-title h5">Send test message</h2>
      <button type="button" class="btn-close" data-bs-dismiss="modal"></button></div>
    <div class="modal-body">
      <input type="hidden" id="pt-id">
      <input type="hidden" id="pt-kind">
      <p id="pt-provider-label" class="text-body-secondary small"></p>
      <div class="mb-2"><label class="form-label" for="pt-to">To</label>
        <input class="form-control" id="pt-to" required></div>
      <div class="mb-2" id="pt-subject-row"><label class="form-label" for="pt-subject">Subject</label>
        <input class="form-control" id="pt-subject"></div>
      <div class="mb-2"><label class="form-label" for="pt-body">Message</label>
        <textarea class="form-control" id="pt-body" rows="3"></textarea></div>
      <div id="pt-result" class="small"></div>
    </div>
    <div class="modal-footer">
      <button class="btn btn-primary" type="submit">Send test</button>
      <button class="btn btn-secondary" type="button" data-bs-dismiss="modal">Close</button>
    </div>
  </form></div>
</div>
<script src="/assets/js/jquery.min.js"></script>
<script src="/assets/js/jquery-migrate.min.js"></script>
<script src="/assets/js/api.js"></script>
<script src="/assets/js/bootstrap.bundle.min.js"></script>
<script src="/assets/js/providers.js"></script>
<!-- footer -->
</body></html>
